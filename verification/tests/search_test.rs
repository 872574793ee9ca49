use tui_1password::op::{ItemDetailsVault, ItemListEntry};
use tui_1password::search::compute_matches;

fn indexed(title: &str) -> ItemListEntry {
    let mut item = ItemListEntry {
        id: String::from("id"),
        title: String::from(title),
        version: 1,
        vault: ItemDetailsVault { id: String::from("v1"), name: String::from("Private") },
        category: String::from("LOGIN"),
        last_edited_by: String::from("me"),
        created_at: String::from(""),
        updated_at: String::from(""),
        additional_information: None,
        urls: None,
        index_term: Vec::new(),
    };
    item.gen_index_term();
    item
}

#[test]
fn gen_index_term_is_the_lowercase_title() {
    let item = indexed("My BANK Éa");
    let term: String = item.index_term.iter().collect();
    assert_eq!(term, "my bank éa");
    assert_eq!(item.title, "My BANK Éa");
}

#[test]
fn has_pattern_looks_into_the_index_term() {
    let item = indexed("My Bank");
    assert!(item.has_pattern("bank"));
    assert!(item.has_pattern("my b"));
    assert!(item.has_pattern(""));
    assert!(!item.has_pattern("Bank"));
    assert!(!item.has_pattern("banks"));
}

#[test]
fn has_pattern_without_index_term_finds_the_empty_pattern_only() {
    let mut item = indexed("My Bank");
    item.index_term = Vec::new();
    assert!(!item.has_pattern("bank"));
    assert!(item.has_pattern(""));
}

#[test]
fn compute_matches_gives_the_positions_in_rising_order() {
    let items = vec![indexed("Bank"), indexed("apple"), indexed("Car bank"), indexed("BANKING"), indexed("x")];
    assert_eq!(compute_matches(&items, "bank"), vec![0, 2, 3]);
    assert_eq!(compute_matches(&items, "a"), vec![0, 1, 2, 3]);
    assert_eq!(compute_matches(&items, "x"), vec![4]);
    assert_eq!(compute_matches(&items, "zz"), Vec::<usize>::new());
}

#[test]
fn compute_matches_regards_the_case_of_the_pattern() {
    let items = vec![indexed("Bank"), indexed("apple")];
    assert_eq!(compute_matches(&items, "Bank"), Vec::<usize>::new());
}

#[test]
fn empty_pattern_matches_every_entry() {
    let items = vec![indexed("Bank"), indexed("apple"), indexed("")];
    assert_eq!(compute_matches(&items, ""), vec![0, 1, 2]);
    assert_eq!(compute_matches(&Vec::new(), ""), Vec::<usize>::new());
}
