use tui_1password::app::{
    Action, App, AppView, Event, InputMode, KeyCode, KeyEvent, SearchState, SelectionState,
    SortConfig, SortDirection, PAGE_ROWS,
};
use tui_1password::app_config::AppConfig;
use tui_1password::op::{ItemDetails, ItemDetailsField, ItemDetailsVault, ItemListEntry};

fn summary(id: &str, title: &str) -> ItemListEntry {
    ItemListEntry {
        id: String::from(id),
        title: String::from(title),
        version: 1,
        vault: ItemDetailsVault { id: String::from("v1"), name: String::from("Private") },
        category: String::from("LOGIN"),
        last_edited_by: String::from("me"),
        created_at: String::from("2022-01-01T00:00:00Z"),
        updated_at: format!("2022-01-{}", id),
        additional_information: None,
        urls: None,
        index_term: Vec::new(),
    }
}

fn record(id: &str, values: &[Option<&str>]) -> ItemDetails {
    ItemDetails {
        id: String::from(id),
        title: String::from("Bank"),
        version: 1,
        category: String::from("LOGIN"),
        last_edited_by: String::from("me"),
        created_at: String::from(""),
        updated_at: String::from(""),
        vault: ItemDetailsVault { id: String::from("v1"), name: String::from("Private") },
        fields: values
            .iter()
            .enumerate()
            .map(|(i, value)| ItemDetailsField {
                id: None,
                field_type: None,
                purpose: None,
                label: Some(format!("label{}", i)),
                value: value.map(String::from),
            })
            .collect(),
    }
}

fn new_app() -> App {
    App::new(AppConfig::defaults(String::from("/tmp/root")))
}

fn app_with(titles: &[&str]) -> App {
    let mut app = new_app();
    let items = titles
        .iter()
        .enumerate()
        .map(|(i, title)| summary(&format!("{:02}", i), title))
        .collect();
    app.populate_items(items);
    app
}

fn key(code: KeyCode) -> Event {
    Event::Key(KeyEvent { code, control: false })
}

fn ch(c: char) -> Event {
    key(KeyCode::Char(c))
}

fn ctrl(c: char) -> Event {
    Event::Key(KeyEvent { code: KeyCode::Char(c), control: true })
}

fn type_text(app: &mut App, text: &str) {
    for c in text.chars() {
        assert_eq!(app.handle_event(ch(c)), Action::Nothing);
    }
}

fn titles(app: &App) -> Vec<String> {
    app.items.iter().map(|item| item.title.clone()).collect()
}

fn list_cursor(app: &App) -> Option<usize> {
    app.item_list_table_state.selected()
}

#[test]
fn new_app_starts_in_the_list_view() {
    let app = new_app();
    assert!(app.is_running);
    assert_eq!(app.app_view, AppView::ItemListView);
    assert_eq!(app.input_mode, InputMode::Normal);
    assert_eq!(app.cmd_input, "");
    assert_eq!(app.headers, vec!["id", "title", "updated_at"]);
    assert_eq!(app.clipboard_bin, "wl-copy");
    assert_eq!(
        app.item_list_sort_config,
        SortConfig { sort_direction: SortDirection::Ascending, header: String::from("title") }
    );
    assert_eq!(app.items, Vec::new());
    assert_eq!(app.item_details, None);
    assert_eq!(app.search_state, None);
    assert_eq!(app.item_list_table_state, SelectionState { selected: None });
    assert_eq!(app.item_table_state, SelectionState { selected: None });
}

#[test]
fn populate_items_indexes_and_sorts_by_title() {
    let app = app_with(&["Bank", "apple", "Car"]);
    assert_eq!(titles(&app), vec!["apple", "Bank", "Car"]);
    let terms: Vec<String> = app.items.iter().map(|item| item.index_term.iter().collect()).collect();
    assert_eq!(terms, vec!["apple", "bank", "car"]);
    assert_eq!(list_cursor(&app), None);
}

#[test]
fn populate_items_keeps_the_cursor_inside_the_list() {
    let mut app = app_with(&["a", "b", "c", "d", "e"]);
    app.handle_event(ch('G'));
    assert_eq!(list_cursor(&app), Some(4));
    app.populate_items(vec![summary("1", "x"), summary("2", "y")]);
    assert_eq!(list_cursor(&app), Some(1));
    app.populate_items(Vec::new());
    assert_eq!(list_cursor(&app), Some(0));
}

#[test]
fn populate_items_makes_the_search_anew() {
    let mut app = app_with(&["bank", "apple", "car bank"]);
    app.handle_event(ch('/'));
    type_text(&mut app, "bank");
    app.handle_event(key(KeyCode::Enter));
    app.handle_event(ch('n'));
    assert_eq!(app.search_state.as_ref().unwrap().match_idxs, vec![1, 2]);
    assert_eq!(app.search_state.as_ref().unwrap().selected_match_idx, Some(1));
    app.populate_items(vec![summary("1", "zebra"), summary("2", "Bank")]);
    let search = app.search_state.as_ref().unwrap();
    assert_eq!(search.pattern, "bank");
    assert_eq!(search.match_idxs, vec![0]);
    assert_eq!(search.selected_match_idx, None);
}

#[test]
fn down_and_up_move_one_row_and_wrap() {
    let mut app = app_with(&["a", "b", "c"]);
    assert_eq!(app.handle_event(ch('j')), Action::Nothing);
    assert_eq!(list_cursor(&app), Some(1));
    app.handle_event(key(KeyCode::Down));
    assert_eq!(list_cursor(&app), Some(2));
    app.handle_event(ch('j'));
    assert_eq!(list_cursor(&app), Some(0));
    app.handle_event(ch('k'));
    assert_eq!(list_cursor(&app), Some(2));
    app.handle_event(key(KeyCode::Up));
    assert_eq!(list_cursor(&app), Some(1));
}

#[test]
fn last_row_advances_to_the_first() {
    let mut app = app_with(&["a", "b", "c", "d", "e"]);
    app.handle_event(ch('G'));
    assert_eq!(list_cursor(&app), Some(4));
    app.handle_event(ch('j'));
    assert_eq!(list_cursor(&app), Some(0));
}

#[test]
fn up_without_a_cursor_goes_to_the_last_row() {
    let mut app = app_with(&["a", "b", "c"]);
    app.handle_event(ch('k'));
    assert_eq!(list_cursor(&app), Some(2));
}

#[test]
fn page_jumps_stop_at_the_boundaries() {
    assert_eq!(PAGE_ROWS, 6);
    let titles: Vec<String> = (0..20).map(|i| format!("t{:02}", i)).collect();
    let names: Vec<&str> = titles.iter().map(|t| t.as_str()).collect();
    let mut app = app_with(&names);
    app.handle_event(ctrl('d'));
    assert_eq!(list_cursor(&app), Some(6));
    app.handle_event(ctrl('d'));
    app.handle_event(ctrl('d'));
    assert_eq!(list_cursor(&app), Some(18));
    app.handle_event(ctrl('d'));
    assert_eq!(list_cursor(&app), Some(19));
    app.handle_event(ctrl('u'));
    assert_eq!(list_cursor(&app), Some(13));
    app.handle_event(ctrl('u'));
    app.handle_event(ctrl('u'));
    assert_eq!(list_cursor(&app), Some(1));
    app.handle_event(ctrl('u'));
    assert_eq!(list_cursor(&app), Some(0));
}

#[test]
fn d_and_u_without_control_do_nothing() {
    let mut app = app_with(&["a", "b", "c"]);
    app.handle_event(ch('j'));
    assert_eq!(app.handle_event(ch('d')), Action::Nothing);
    assert_eq!(app.handle_event(ch('u')), Action::Nothing);
    assert_eq!(list_cursor(&app), Some(1));
}

#[test]
fn first_and_last_row_keys() {
    let mut app = app_with(&["a", "b", "c"]);
    app.handle_event(ch('G'));
    assert_eq!(list_cursor(&app), Some(2));
    app.handle_event(ch('g'));
    assert_eq!(list_cursor(&app), Some(0));
}

#[test]
fn moves_on_an_empty_list_stay_at_row_zero() {
    for event in [ch('j'), ch('k'), ch('G'), ch('g'), ctrl('d'), ctrl('u'), key(KeyCode::Up), key(KeyCode::Down)] {
        let mut app = new_app();
        assert_eq!(app.handle_event(event), Action::Nothing);
        assert_eq!(list_cursor(&app), Some(0));
    }
}

#[test]
fn set_and_add_selected_index_clamp() {
    let mut app = app_with(&["a", "b", "c"]);
    app.set_selected_index(7, &AppView::ItemListView);
    assert_eq!(list_cursor(&app), Some(2));
    app.set_selected_index(-3, &AppView::ItemListView);
    assert_eq!(list_cursor(&app), Some(0));
    app.set_selected_index(1, &AppView::ItemListView);
    assert_eq!(list_cursor(&app), Some(1));
    app.add_selected_index(1, &AppView::ItemListView);
    assert_eq!(list_cursor(&app), Some(2));
    app.add_selected_index(1, &AppView::ItemListView);
    assert_eq!(list_cursor(&app), Some(2));
    app.add_selected_index(-5, &AppView::ItemListView);
    assert_eq!(list_cursor(&app), Some(0));
    app.add_selected_index(i32::MAX, &AppView::ItemListView);
    assert_eq!(list_cursor(&app), Some(2));
    app.add_selected_index(i32::MIN, &AppView::ItemListView);
    assert_eq!(list_cursor(&app), Some(0));
    app.add_selected_index(0, &AppView::ItemListView);
    assert_eq!(list_cursor(&app), Some(0));
    assert_eq!(app.selected_index(&AppView::ItemListView), 0);
    assert_eq!(app.table_max_index(&AppView::ItemListView), 2);
    assert_eq!(app.table_max_index(&AppView::ItemView), 0);
    assert_eq!(app.table_len(&AppView::ItemListView), 3);
    assert_eq!(app.item_table_state.selected(), None);
}

#[test]
fn q_in_the_list_view_ends_the_program() {
    let mut app = app_with(&["a"]);
    assert_eq!(app.handle_event(ch('q')), Action::Nothing);
    assert!(!app.is_running);
}

#[test]
fn other_events_change_nothing() {
    let mut app = app_with(&["a", "b"]);
    assert_eq!(app.handle_event(Event::Other), Action::Nothing);
    assert_eq!(app.handle_event(key(KeyCode::Other)), Action::Nothing);
    assert_eq!(app.handle_event(key(KeyCode::Esc)), Action::Nothing);
    assert_eq!(app.handle_event(key(KeyCode::Backspace)), Action::Nothing);
    assert_eq!(app.handle_event(ch('x')), Action::Nothing);
    assert!(app.is_running);
    assert_eq!(app.input_mode, InputMode::Normal);
    assert_eq!(list_cursor(&app), None);
    assert_eq!(app.app_view, AppView::ItemListView);
}

#[test]
fn colon_enters_command_mode() {
    let mut app = app_with(&["a"]);
    assert_eq!(app.handle_event(ch(':')), Action::Nothing);
    assert_eq!(app.input_mode, InputMode::Command);
    assert_eq!(app.cmd_input, ":");
    assert_eq!(app.search_state, None);
    type_text(&mut app, "sort Title");
    assert_eq!(app.cmd_input, ":sort Title");
    assert_eq!(app.search_state, None);
}

#[test]
fn slash_enters_command_mode_with_a_new_search() {
    let mut app = app_with(&["a"]);
    app.handle_event(ch('/'));
    assert_eq!(app.input_mode, InputMode::Command);
    assert_eq!(app.cmd_input, "/");
    assert_eq!(
        app.search_state,
        Some(SearchState { pattern: String::new(), match_idxs: Vec::new(), selected_match_idx: None })
    );
}

#[test]
fn typing_a_search_folds_the_pattern_and_finds_matches() {
    let mut app = app_with(&["Bank", "apple", "Car bank"]);
    app.handle_event(ch('/'));
    type_text(&mut app, "B");
    assert_eq!(app.cmd_input, "/B");
    assert_eq!(
        app.search_state,
        Some(SearchState { pattern: String::from("b"), match_idxs: vec![1, 2], selected_match_idx: None })
    );
    type_text(&mut app, "aN");
    assert_eq!(app.cmd_input, "/BaN");
    let search = app.search_state.as_ref().unwrap();
    assert_eq!(search.pattern, "ban");
    assert_eq!(search.match_idxs, vec![1, 2]);
    type_text(&mut app, "x");
    assert_eq!(app.search_state.as_ref().unwrap().match_idxs, Vec::<usize>::new());
    assert_eq!(list_cursor(&app), None);
}

#[test]
fn escape_after_typing_a_search_clears_the_buffer_and_keeps_the_search() {
    let mut app = app_with(&["abc", "xabcx", "other"]);
    app.handle_event(ch('/'));
    type_text(&mut app, "abc");
    assert_eq!(app.cmd_input, "/abc");
    assert_eq!(app.handle_event(key(KeyCode::Esc)), Action::Nothing);
    assert_eq!(app.cmd_input, "");
    assert_eq!(app.input_mode, InputMode::Normal);
    assert_eq!(
        app.search_state,
        Some(SearchState { pattern: String::from("abc"), match_idxs: vec![0, 2], selected_match_idx: None })
    );
    assert_eq!(list_cursor(&app), None);
    app.handle_event(ch('n'));
    assert_eq!(list_cursor(&app), Some(0));
}

#[test]
fn backspace_takes_characters_off_and_leaves_command_mode_at_the_end() {
    let mut app = app_with(&["a"]);
    app.handle_event(ch(':'));
    type_text(&mut app, "so");
    assert_eq!(app.handle_event(key(KeyCode::Backspace)), Action::Nothing);
    assert_eq!(app.cmd_input, ":s");
    assert_eq!(app.input_mode, InputMode::Command);
    app.handle_event(key(KeyCode::Backspace));
    assert_eq!(app.cmd_input, ":");
    assert_eq!(app.input_mode, InputMode::Command);
    app.handle_event(key(KeyCode::Backspace));
    assert_eq!(app.cmd_input, "");
    assert_eq!(app.input_mode, InputMode::Normal);
}

#[test]
fn backspace_in_a_search_leaves_the_pattern() {
    let mut app = app_with(&["bank", "ban"]);
    app.handle_event(ch('/'));
    type_text(&mut app, "bank");
    app.handle_event(key(KeyCode::Backspace));
    assert_eq!(app.cmd_input, "/ban");
    let search = app.search_state.as_ref().unwrap();
    assert_eq!(search.pattern, "bank");
    assert_eq!(search.match_idxs, vec![1]);
}

#[test]
fn keys_in_command_mode_do_not_move_the_cursor() {
    let mut app = app_with(&["a", "b", "c"]);
    app.handle_event(ch(':'));
    type_text(&mut app, "jkGq");
    assert_eq!(app.handle_event(key(KeyCode::Down)), Action::Nothing);
    assert_eq!(app.handle_event(key(KeyCode::Up)), Action::Nothing);
    assert_eq!(app.handle_event(ctrl('d')), Action::Nothing);
    assert_eq!(app.cmd_input, ":jkGqd");
    assert_eq!(list_cursor(&app), None);
    assert!(app.is_running);
}

#[test]
fn quit_commands_end_the_program() {
    for command in ["q", "qa"] {
        let mut app = app_with(&["a"]);
        app.handle_event(ch(':'));
        type_text(&mut app, command);
        assert_eq!(app.handle_event(key(KeyCode::Enter)), Action::Nothing);
        assert!(!app.is_running);
        assert_eq!(app.cmd_input, "");
        assert_eq!(app.input_mode, InputMode::Normal);
    }
}

#[test]
fn reload_command_asks_for_a_reload() {
    let mut app = app_with(&["b", "a"]);
    app.handle_event(ch(':'));
    type_text(&mut app, "e");
    assert_eq!(app.handle_event(key(KeyCode::Enter)), Action::Reload);
    assert!(app.is_running);
    assert_eq!(titles(&app), vec!["a", "b"]);
    assert_eq!(app.cmd_input, "");
    assert_eq!(app.input_mode, InputMode::Normal);
}

#[test]
fn unknown_commands_change_nothing() {
    for command in ["", "x", "Q", "quit", "sorted", "e x", " q", "qa!", "so rt"] {
        let mut app = app_with(&["b", "a", "c"]);
        app.handle_event(ch('j'));
        app.handle_event(ch(':'));
        type_text(&mut app, command);
        let action = app.handle_event(key(KeyCode::Enter));
        if command == "e x" {
            assert_eq!(action, Action::Reload);
        } else {
            assert_eq!(action, Action::Nothing);
        }
        assert!(app.is_running);
        assert_eq!(titles(&app), vec!["a", "b", "c"]);
        assert_eq!(list_cursor(&app), Some(1));
        assert_eq!(app.cmd_input, "");
        assert_eq!(app.input_mode, InputMode::Normal);
        assert_eq!(
            app.item_list_sort_config,
            SortConfig { sort_direction: SortDirection::Ascending, header: String::from("title") }
        );
    }
}

#[test]
fn sort_title_asc_command() {
    let mut app = new_app();
    app.items = vec![summary("1", "Bank"), summary("2", "apple"), summary("3", "Car")];
    app.handle_event(ch(':'));
    type_text(&mut app, "sort title asc");
    assert_eq!(app.handle_event(key(KeyCode::Enter)), Action::Nothing);
    assert_eq!(titles(&app), vec!["apple", "Bank", "Car"]);
    assert_eq!(
        app.item_list_sort_config,
        SortConfig { sort_direction: SortDirection::Ascending, header: String::from("title") }
    );
}

#[test]
fn sort_title_desc_command_orders_the_titles_downward() {
    let mut app = app_with(&["Bank", "apple", "Car", "dove", "Eel"]);
    app.handle_event(ch(':'));
    type_text(&mut app, "sort title desc");
    assert_eq!(app.handle_event(key(KeyCode::Enter)), Action::Nothing);
    assert_eq!(titles(&app), vec!["Eel", "dove", "Car", "Bank", "apple"]);
    for pair in app.items.windows(2) {
        assert!(pair[0].title.to_lowercase() > pair[1].title.to_lowercase());
    }
    assert_eq!(
        app.item_list_sort_config,
        SortConfig { sort_direction: SortDirection::Descending, header: String::from("title") }
    );
    assert_eq!(app.cmd_input, "");
    assert_eq!(app.input_mode, InputMode::Normal);
}

#[test]
fn sort_command_direction_defaults_to_ascending() {
    for (command, header, direction, want) in [
        ("sort id", "id", SortDirection::Ascending, vec!["00", "01", "02"]),
        ("sort id desc", "id", SortDirection::Descending, vec!["02", "01", "00"]),
        ("sort id asc", "id", SortDirection::Ascending, vec!["00", "01", "02"]),
        ("sort id down", "id", SortDirection::Ascending, vec!["00", "01", "02"]),
        ("sort id DESC", "id", SortDirection::Ascending, vec!["00", "01", "02"]),
        ("sort id desc please", "id", SortDirection::Descending, vec!["02", "01", "00"]),
        ("sort id  desc", "id", SortDirection::Ascending, vec!["00", "01", "02"]),
        ("sort updated_at desc", "updated_at", SortDirection::Descending, vec!["02", "01", "00"]),
    ] {
        let mut app = app_with(&["c", "a", "b"]);
        app.handle_event(ch(':'));
        type_text(&mut app, command);
        app.handle_event(key(KeyCode::Enter));
        let ids: Vec<String> = app.items.iter().map(|item| item.id.clone()).collect();
        assert_eq!(ids, want, "{}", command);
        assert_eq!(
            app.item_list_sort_config,
            SortConfig { sort_direction: direction, header: String::from(header) }
        );
    }
}

#[test]
fn sort_by_an_unknown_column_sorts_by_title_upward() {
    for command in ["sort", "sort category desc", "sort Title desc", "sort  title desc"] {
        let mut app = new_app();
        app.items = vec![summary("1", "Bank"), summary("2", "apple"), summary("3", "Car")];
        app.handle_event(ch(':'));
        type_text(&mut app, command);
        app.handle_event(key(KeyCode::Enter));
        assert_eq!(titles(&app), vec!["apple", "Bank", "Car"], "{}", command);
    }
}

#[test]
fn sort_command_makes_the_search_anew() {
    let mut app = app_with(&["bank", "apple", "car bank"]);
    app.handle_event(ch('/'));
    type_text(&mut app, "bank");
    app.handle_event(key(KeyCode::Enter));
    assert_eq!(
        app.search_state,
        Some(SearchState { pattern: String::from("bank"), match_idxs: vec![1, 2], selected_match_idx: Some(0) })
    );
    assert_eq!(list_cursor(&app), Some(1));
    app.handle_event(ch(':'));
    type_text(&mut app, "sort title desc");
    app.handle_event(key(KeyCode::Enter));
    assert_eq!(titles(&app), vec!["car bank", "bank", "apple"]);
    assert_eq!(
        app.search_state,
        Some(SearchState { pattern: String::from("bank"), match_idxs: vec![0, 1], selected_match_idx: Some(0) })
    );
}

#[test]
fn confirming_a_search_goes_to_the_first_match() {
    let mut app = app_with(&["apple", "bank", "car", "dank"]);
    app.handle_event(ch('G'));
    app.handle_event(ch('/'));
    type_text(&mut app, "an");
    assert_eq!(app.handle_event(key(KeyCode::Enter)), Action::Nothing);
    assert_eq!(list_cursor(&app), Some(1));
    assert_eq!(app.search_state.as_ref().unwrap().selected_match_idx, Some(0));
    assert_eq!(app.cmd_input, "");
    assert_eq!(app.input_mode, InputMode::Normal);
}

#[test]
fn next_match_cycles_through_the_matches() {
    let mut app = app_with(&["apple", "bank", "car", "dank", "eel", "fang"]);
    app.handle_event(ch('/'));
    type_text(&mut app, "an");
    app.handle_event(key(KeyCode::Enter));
    assert_eq!(app.search_state.as_ref().unwrap().match_idxs, vec![1, 3, 5]);
    assert_eq!(list_cursor(&app), Some(1));
    let first = app.search_state.clone();
    let mut rows = Vec::new();
    for _ in 0..3 {
        assert_eq!(app.handle_event(ch('n')), Action::Nothing);
        rows.push(list_cursor(&app).unwrap());
    }
    assert_eq!(rows, vec![3, 5, 1]);
    assert_eq!(app.search_state, first);
    app.select_next_search();
    assert_eq!(list_cursor(&app), Some(3));
    assert_eq!(app.search_state.as_ref().unwrap().selected_match_idx, Some(1));
}

#[test]
fn next_match_without_matches_changes_nothing() {
    let mut app = app_with(&["apple", "bank"]);
    app.handle_event(ch('j'));
    app.handle_event(ch('n'));
    assert_eq!(list_cursor(&app), Some(1));
    assert_eq!(app.search_state, None);
    app.handle_event(ch('/'));
    app.handle_event(key(KeyCode::Enter));
    assert_eq!(list_cursor(&app), Some(1));
    app.handle_event(ch('/'));
    type_text(&mut app, "zz");
    app.handle_event(key(KeyCode::Enter));
    app.handle_event(ch('n'));
    assert_eq!(list_cursor(&app), Some(1));
    assert_eq!(
        app.search_state,
        Some(SearchState { pattern: String::from("zz"), match_idxs: Vec::new(), selected_match_idx: None })
    );
}

#[test]
fn next_match_clamps_a_position_beyond_the_list() {
    let mut app = app_with(&["a", "b", "c"]);
    app.search_state = Some(SearchState {
        pattern: String::from("x"),
        match_idxs: vec![1, 9],
        selected_match_idx: Some(7),
    });
    app.select_next_search();
    assert_eq!(app.search_state.as_ref().unwrap().selected_match_idx, Some(0));
    assert_eq!(list_cursor(&app), Some(1));
    app.select_next_search();
    assert_eq!(app.search_state.as_ref().unwrap().selected_match_idx, Some(1));
    assert_eq!(list_cursor(&app), Some(2));
}

#[test]
fn search_item_list_drops_a_selection_that_is_out_of_range() {
    let mut app = app_with(&["bank", "apple"]);
    app.search_state = Some(SearchState {
        pattern: String::from("a"),
        match_idxs: vec![0, 1, 5, 6],
        selected_match_idx: Some(3),
    });
    app.search_item_list();
    assert_eq!(
        app.search_state,
        Some(SearchState { pattern: String::from("a"), match_idxs: vec![0, 1], selected_match_idx: None })
    );
    app.search_state.as_mut().unwrap().selected_match_idx = Some(1);
    app.search_item_list();
    assert_eq!(app.search_state.as_ref().unwrap().selected_match_idx, Some(1));
}

#[test]
fn yank_in_the_list_copies_the_title() {
    let mut app = app_with(&["Bank", "apple"]);
    assert_eq!(
        app.handle_event(ch('y')),
        Action::Copy { command: vec![String::from("wl-copy")], text: String::from("apple") }
    );
    app.handle_event(ch('j'));
    app.clipboard_bin = String::from("xclip -selection clipboard");
    assert_eq!(
        app.yank(),
        Action::Copy {
            command: vec![String::from("xclip"), String::from("-selection"), String::from("clipboard")],
            text: String::from("Bank")
        }
    );
}

#[test]
fn yank_on_an_empty_list_asks_for_nothing() {
    let mut app = new_app();
    assert_eq!(app.handle_event(ch('y')), Action::Nothing);
    assert_eq!(app.current_item(), None);
}

#[test]
fn enter_asks_for_the_details_of_the_selected_entry() {
    let mut app = app_with(&["Bank", "apple"]);
    app.handle_event(ch('j'));
    assert_eq!(app.handle_event(key(KeyCode::Enter)), Action::FetchDetails { id: String::from("00") });
    assert_eq!(app.app_view, AppView::ItemListView);
    assert_eq!(app.item_details, None);
    assert_eq!(app.current_item().unwrap().title, "Bank");
}

#[test]
fn enter_on_an_empty_list_asks_for_nothing() {
    let mut app = new_app();
    assert_eq!(app.handle_event(key(KeyCode::Enter)), Action::Nothing);
    assert_eq!(app.app_view, AppView::ItemListView);
}

#[test]
fn reload_key_asks_for_a_reload() {
    let mut app = app_with(&["a"]);
    assert_eq!(app.handle_event(ch('R')), Action::Reload);
}

#[test]
fn populate_item_details_opens_the_entry_view() {
    let mut app = app_with(&["Bank"]);
    app.populate_item_details(record("00", &[Some("me"), None, Some("secret")]));
    assert_eq!(app.app_view, AppView::ItemView);
    let details = app.item_details.as_ref().unwrap();
    assert_eq!(details.id, "00");
    assert_eq!(details.fields[1].value, Some(String::new()));
    assert_eq!(details.fields[2].value, Some(String::from("secret")));
    assert_eq!(app.table_len(&AppView::ItemView), 3);
    assert_eq!(app.table_max_index(&AppView::ItemView), 2);
    assert_eq!(app.item_table_state.selected(), None);
}

#[test]
fn keys_in_the_entry_view() {
    let mut app = app_with(&["Bank", "apple"]);
    app.handle_event(ch('j'));
    app.populate_item_details(record("00", &[Some("me"), None, Some("secret")]));
    assert_eq!(app.handle_event(ch('j')), Action::Nothing);
    assert_eq!(app.item_table_state.selected(), Some(1));
    assert_eq!(list_cursor(&app), Some(1));
    assert_eq!(
        app.handle_event(ch('y')),
        Action::Copy { command: vec![String::from("wl-copy")], text: String::new() }
    );
    app.handle_event(key(KeyCode::Down));
    assert_eq!(app.current_item_detail().unwrap().value, Some(String::from("secret")));
    assert_eq!(
        app.handle_event(ch('y')),
        Action::Copy { command: vec![String::from("wl-copy")], text: String::from("secret") }
    );
    app.handle_event(ch('j'));
    assert_eq!(app.item_table_state.selected(), Some(0));
    app.handle_event(ch('k'));
    assert_eq!(app.item_table_state.selected(), Some(2));
    app.handle_event(ctrl('u'));
    assert_eq!(app.item_table_state.selected(), Some(0));
    app.handle_event(ctrl('d'));
    assert_eq!(app.item_table_state.selected(), Some(2));
    app.handle_event(key(KeyCode::Up));
    assert_eq!(app.item_table_state.selected(), Some(1));
    for event in [ch('G'), ch('g'), ch('n'), ch(':'), ch('/'), key(KeyCode::Enter)] {
        assert_eq!(app.handle_event(event), Action::Nothing);
    }
    assert_eq!(app.item_table_state.selected(), Some(1));
    assert_eq!(app.input_mode, InputMode::Normal);
    assert_eq!(app.handle_event(ch('R')), Action::FetchDetails { id: String::from("00") });
    assert_eq!(app.handle_event(ch('q')), Action::Nothing);
    assert_eq!(app.app_view, AppView::ItemListView);
    assert!(app.is_running);
    assert_eq!(list_cursor(&app), Some(1));
}

#[test]
fn opening_an_entry_with_fewer_fields_keeps_the_cursor_inside() {
    let mut app = app_with(&["Bank", "apple"]);
    app.populate_item_details(record("00", &[Some("a"), Some("b"), Some("c"), Some("d")]));
    app.handle_event(ch('k'));
    assert_eq!(app.item_table_state.selected(), Some(3));
    app.handle_event(ch('q'));
    app.populate_item_details(record("01", &[Some("x"), Some("y")]));
    assert_eq!(app.item_table_state.selected(), Some(1));
    assert_eq!(
        app.yank(),
        Action::Copy { command: vec![String::from("wl-copy")], text: String::from("y") }
    );
    app.populate_item_details(record("01", &[]));
    assert_eq!(app.item_table_state.selected(), Some(0));
    assert_eq!(app.yank(), Action::Nothing);
    assert_eq!(app.current_item_detail(), None);
}

#[test]
fn run_command_on_an_empty_command_line_does_nothing() {
    let mut app = app_with(&["b", "a"]);
    assert_eq!(app.run_command(), Action::Nothing);
    assert!(app.is_running);
    app.cmd_input = String::from("sort id desc");
    assert_eq!(app.run_command(), Action::Nothing);
    assert_eq!(titles(&app), vec!["a", "b"]);
    app.cmd_input = String::from(" :q");
    assert_eq!(app.run_command(), Action::Nothing);
    assert!(app.is_running);
}

#[test]
fn enter_command_mode_and_reset() {
    let mut app = app_with(&["a"]);
    app.enter_command_mode(":");
    assert_eq!(app.input_mode, InputMode::Command);
    assert_eq!(app.cmd_input, ":");
    app.reset_cmd_input();
    assert_eq!(app.input_mode, InputMode::Normal);
    assert_eq!(app.cmd_input, "");
    app.enter_command_mode("/");
    assert!(app.search_state.is_some());
}

#[test]
fn sort_item_list_goes_by_the_sort_setting() {
    let mut app = new_app();
    app.items = vec![summary("2", "Bank"), summary("3", "apple"), summary("1", "Car")];
    app.item_list_sort_config =
        SortConfig { sort_direction: SortDirection::Descending, header: String::from("id") };
    app.sort_item_list();
    assert_eq!(titles(&app), vec!["apple", "Bank", "Car"]);
    app.item_list_sort_config =
        SortConfig { sort_direction: SortDirection::Descending, header: String::from("nothing") };
    app.sort_item_list();
    assert_eq!(titles(&app), vec!["apple", "Bank", "Car"]);
    app.item_list_sort_config =
        SortConfig { sort_direction: SortDirection::Ascending, header: String::from("id") };
    app.sort_item_list();
    assert_eq!(titles(&app), vec!["Car", "Bank", "apple"]);
}

#[test]
fn wrapping_steps_by_method() {
    let mut app = app_with(&["a", "b", "c"]);
    app.retreat_selected_index(&AppView::ItemListView);
    assert_eq!(list_cursor(&app), Some(2));
    app.advance_selected_index(&AppView::ItemListView);
    assert_eq!(list_cursor(&app), Some(0));
    app.advance_selected_index(&AppView::ItemView);
    assert_eq!(app.item_table_state.selected(), Some(0));
}
