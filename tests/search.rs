use bioimg::widgets::search_and_pick_widget::{str_contains, SearchAndPickWidget};

fn fruit_picker() -> SearchAndPickWidget<String> {
    SearchAndPickWidget::new(
        "Banana".to_owned(),
        vec!["Apple".to_owned(), "Banana".to_owned(), "cherry".to_owned(), "Mango".to_owned()],
    )
}

#[test]
fn new_picker_shows_each_entry() {
    let w = fruit_picker();
    assert_eq!(w.value, "Banana");
    assert!(w.search.is_empty());
    assert!(!w.popup_open);
    assert_eq!(w.entries.len(), 4);
    assert_eq!(w.entries[0].display(), "Apple");
    assert_eq!(w.entries[3].value(), "Mango");
}

#[test]
fn empty_search_shows_everything() {
    let w = fruit_picker();
    assert_eq!(w.visible_entries(), vec![0, 1, 2, 3]);
}

#[test]
fn search_ignores_case() {
    let mut w = fruit_picker();
    w.search = "AN".to_owned();
    assert_eq!(w.visible_entries(), vec![1, 3]);
    w.search = "CHER".to_owned();
    assert_eq!(w.visible_entries(), vec![2]);
    w.search = "kiwi".to_owned();
    assert!(w.visible_entries().is_empty());
}

#[test]
fn picker_contains_values() {
    let w = fruit_picker();
    assert!(w.contains(&"cherry".to_owned()));
    assert!(!w.contains(&"Cherry".to_owned()));
}

#[test]
fn substring_search() {
    assert!(str_contains("banana", "nan"));
    assert!(str_contains("banana", ""));
    assert!(str_contains("", ""));
    assert!(!str_contains("ban", "bana"));
    assert!(!str_contains("banana", "nab"));
    assert!(str_contains("äöü", "öü"));
}

#[test]
fn numbers_are_searched_by_their_text() {
    let mut w = SearchAndPickWidget::new(0u32, vec![10, 21, 102]);
    w.search = "10".to_owned();
    assert_eq!(w.visible_entries(), vec![0, 2]);
}
