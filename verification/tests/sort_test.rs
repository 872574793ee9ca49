use tui_1password::app::SortDirection;
use tui_1password::op::{ItemDetailsVault, ItemListEntry};
use tui_1password::sort::{field_of, key_of, sort_items, stands_before, SortField};

fn entry(id: &str, title: &str, updated_at: &str) -> ItemListEntry {
    ItemListEntry {
        id: String::from(id),
        title: String::from(title),
        version: 1,
        vault: ItemDetailsVault { id: String::from("v1"), name: String::from("Private") },
        category: String::from("LOGIN"),
        last_edited_by: String::from("me"),
        created_at: String::from("2022-01-01T00:00:00Z"),
        updated_at: String::from(updated_at),
        additional_information: None,
        urls: None,
        index_term: Vec::new(),
    }
}

fn titles(items: &Vec<ItemListEntry>) -> Vec<String> {
    items.iter().map(|item| item.title.clone()).collect()
}

fn ids(items: &Vec<ItemListEntry>) -> Vec<String> {
    items.iter().map(|item| item.id.clone()).collect()
}

#[test]
fn field_of_knows_three_headers() {
    assert_eq!(field_of("id"), Some(SortField::Id));
    assert_eq!(field_of("title"), Some(SortField::Title));
    assert_eq!(field_of("updated_at"), Some(SortField::UpdatedAt));
    assert_eq!(field_of("Title"), None);
    assert_eq!(field_of(""), None);
    assert_eq!(field_of("category"), None);
}

#[test]
fn key_of_folds_the_case_of_the_title_only() {
    let item = entry("AbC", "My BANK É", "2022-05-01T10:00:00Z");
    let title: String = key_of(&item, SortField::Title).into_iter().collect();
    let id: String = key_of(&item, SortField::Id).into_iter().collect();
    let updated: String = key_of(&item, SortField::UpdatedAt).into_iter().collect();
    assert_eq!(title, "my bank é");
    assert_eq!(id, "AbC");
    assert_eq!(updated, "2022-05-01T10:00:00Z");
}

#[test]
fn stands_before_turns_with_the_direction() {
    let a: Vec<char> = "apple".chars().collect();
    let b: Vec<char> = "bank".chars().collect();
    assert!(stands_before(&a, &b, SortDirection::Ascending));
    assert!(!stands_before(&b, &a, SortDirection::Ascending));
    assert!(stands_before(&b, &a, SortDirection::Descending));
    assert!(!stands_before(&a, &b, SortDirection::Descending));
    assert!(!stands_before(&a, &a, SortDirection::Ascending));
    assert!(!stands_before(&a, &a, SortDirection::Descending));
}

#[test]
fn sort_by_title_ascending_ignores_case() {
    let items = vec![entry("1", "Bank", "c"), entry("2", "apple", "b"), entry("3", "Car", "a")];
    let sorted = sort_items(items, SortField::Title, SortDirection::Ascending);
    assert_eq!(titles(&sorted), vec!["apple", "Bank", "Car"]);
}

#[test]
fn sort_by_title_descending_ignores_case() {
    let items = vec![entry("1", "Bank", "c"), entry("2", "apple", "b"), entry("3", "Car", "a")];
    let sorted = sort_items(items, SortField::Title, SortDirection::Descending);
    assert_eq!(titles(&sorted), vec!["Car", "Bank", "apple"]);
}

#[test]
fn sort_by_id_regards_case() {
    let items = vec![entry("b", "x", ""), entry("B", "y", ""), entry("a", "z", ""), entry("A", "w", "")];
    let sorted = sort_items(items, SortField::Id, SortDirection::Ascending);
    assert_eq!(ids(&sorted), vec!["A", "B", "a", "b"]);
}

#[test]
fn sort_by_updated_at() {
    let items = vec![
        entry("1", "x", "2022-03-01T00:00:00Z"),
        entry("2", "y", "2021-12-31T23:59:59Z"),
        entry("3", "z", "2022-03-01T00:00:01Z"),
    ];
    let up = sort_items(items.clone(), SortField::UpdatedAt, SortDirection::Ascending);
    assert_eq!(ids(&up), vec!["2", "1", "3"]);
    let down = sort_items(items, SortField::UpdatedAt, SortDirection::Descending);
    assert_eq!(ids(&down), vec!["3", "1", "2"]);
}

#[test]
fn sort_keeps_the_order_of_equal_keys() {
    let items = vec![
        entry("1", "bank", ""),
        entry("2", "Apple", ""),
        entry("3", "BANK", ""),
        entry("4", "apple", ""),
        entry("5", "Bank", ""),
    ];
    let up = sort_items(items.clone(), SortField::Title, SortDirection::Ascending);
    assert_eq!(ids(&up), vec!["2", "4", "1", "3", "5"]);
    let down = sort_items(items, SortField::Title, SortDirection::Descending);
    assert_eq!(ids(&down), vec!["1", "3", "5", "2", "4"]);
}

#[test]
fn sorting_twice_gives_what_sorting_once_gives() {
    let items = vec![
        entry("1", "delta", "4"),
        entry("2", "Alpha", "2"),
        entry("3", "charlie", "2"),
        entry("4", "alpha", "1"),
        entry("5", "Bravo", "3"),
    ];
    for field in [SortField::Id, SortField::Title, SortField::UpdatedAt] {
        for direction in [SortDirection::Ascending, SortDirection::Descending] {
            let once = sort_items(items.clone(), field, direction);
            let twice = sort_items(once.clone(), field, direction);
            assert_eq!(once, twice);
        }
    }
}

#[test]
fn descending_is_the_reverse_of_ascending_without_ties() {
    let items = vec![
        entry("1", "delta", ""),
        entry("2", "Alpha", ""),
        entry("3", "charlie", ""),
        entry("4", "Bravo", ""),
    ];
    let up = sort_items(items.clone(), SortField::Title, SortDirection::Ascending);
    let down = sort_items(up.clone(), SortField::Title, SortDirection::Descending);
    let mut reversed = up.clone();
    reversed.reverse();
    assert_eq!(down, reversed);
    assert_eq!(sort_items(items, SortField::Title, SortDirection::Descending), reversed);
}

#[test]
fn sort_of_nothing_and_of_one() {
    assert_eq!(sort_items(Vec::new(), SortField::Title, SortDirection::Ascending), Vec::new());
    let one = vec![entry("1", "x", "")];
    assert_eq!(sort_items(one.clone(), SortField::Id, SortDirection::Descending), one);
}

#[test]
fn sort_agrees_with_the_stable_sort_of_the_standard_library() {
    let names = ["pear", "Apple", "fig", "apple", "Fig", "kiwi", "PEAR", "banana", "Kiwi", "fig"];
    let mut items = Vec::new();
    for (i, name) in names.iter().enumerate() {
        items.push(entry(&format!("{}", (i * 7) % 10), name, &format!("{}", (i * 3) % 4)));
    }
    let mut by_title = items.clone();
    by_title.sort_by(|a, b| a.title.to_lowercase().cmp(&b.title.to_lowercase()));
    assert_eq!(sort_items(items.clone(), SortField::Title, SortDirection::Ascending), by_title);
    let mut by_title_down = items.clone();
    by_title_down.sort_by(|a, b| b.title.to_lowercase().cmp(&a.title.to_lowercase()));
    assert_eq!(sort_items(items.clone(), SortField::Title, SortDirection::Descending), by_title_down);
    let mut by_id = items.clone();
    by_id.sort_by(|a, b| a.id.cmp(&b.id));
    assert_eq!(sort_items(items.clone(), SortField::Id, SortDirection::Ascending), by_id);
    let mut by_time_down = items.clone();
    by_time_down.sort_by(|a, b| b.updated_at.cmp(&a.updated_at));
    assert_eq!(sort_items(items, SortField::UpdatedAt, SortDirection::Descending), by_time_down);
}
