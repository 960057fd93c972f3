use metadata::{Metadata, DATE, DEFAULT_DATE, DEFAULT_VERSION, NAME, VERSION};

fn s(text: &str) -> String {
    text.to_owned()
}

#[test]
fn new_map_is_empty() {
    let m = Metadata::new();
    assert_eq!(m.len(), 0);
    assert!(m.is_empty());
    assert_eq!(m.get("name"), None);
    assert!(!m.contains_key("name"));
    assert_eq!(m, Metadata::default());
}

#[test]
fn insert_binds_and_returns_the_old_value() {
    let mut m = Metadata::new();
    assert_eq!(m.insert(s("b"), s("1")), None);
    assert_eq!(m.insert(s("a"), s("2")), None);
    assert_eq!(m.insert(s("b"), s("3")), Some(s("1")));
    assert_eq!(m.len(), 2);
    assert_eq!(m.get("a"), Some(&s("2")));
    assert_eq!(m.get("b"), Some(&s("3")));
    assert!(m.contains_key("a"));
    assert!(!m.contains_key("c"));
}

#[test]
fn remove_unbinds_and_returns_the_value() {
    let mut m = Metadata::new();
    m.insert(s("x"), s("1"));
    m.insert(s("y"), s("2"));
    assert_eq!(m.remove("z"), None);
    assert_eq!(m.remove("x"), Some(s("1")));
    assert_eq!(m.remove("x"), None);
    assert_eq!(m.len(), 1);
    assert_eq!(m.get("y"), Some(&s("2")));
}

#[test]
fn entries_come_in_key_order() {
    let mut m = Metadata::new();
    for key in ["version", "name", "date", "authors", "description", "Zeta", "", "é", "name2"] {
        m.insert(s(key), s(key));
    }
    let entries = m.to_entries();
    let keys: Vec<&str> = entries.iter().map(|e| e.0.as_str()).collect();
    let mut sorted = keys.clone();
    sorted.sort();
    assert_eq!(keys, sorted);
    assert_eq!(keys[0], "");
    assert_eq!(keys[1], "Zeta");
    assert_eq!(keys.len(), 9);
}

#[test]
fn empty_value_is_set_and_differs_from_unset() {
    let mut m = Metadata::new();
    m.insert(s(NAME), s(""));
    assert_eq!(m.get(NAME), Some(&s("")));
    assert!(m.contains_key(NAME));
    m.remove(NAME);
    assert_eq!(m.get(NAME), None);
}

#[test]
fn keys_are_case_sensitive() {
    let mut m = Metadata::new();
    m.insert(s("Name"), s("Upper"));
    assert_eq!(m.get(NAME), None);
    assert_eq!(m.format("-"), "");
}

#[test]
fn title_is_the_name_alone() {
    let mut m = Metadata::new();
    m.insert(s(NAME), s("Foo"));
    assert_eq!(m.format("-"), "Foo");
}

#[test]
fn title_leaves_out_the_default_date() {
    let mut m = Metadata::new();
    m.insert(s(NAME), s("Foo"));
    m.insert(s(DATE), s("1970-01-01"));
    assert_eq!(m.format("-"), "Foo");
}

#[test]
fn title_holds_name_date_and_version() {
    let mut m = Metadata::new();
    m.insert(s(NAME), s("Foo"));
    m.insert(s(DATE), s("2024-05-01"));
    m.insert(s(VERSION), s("1.2.3"));
    assert_eq!(m.format("-"), "Foo-2024-05-01-1.2.3");
}

#[test]
fn title_leaves_out_the_default_version() {
    let mut m = Metadata::new();
    m.insert(s(NAME), s("Foo"));
    m.insert(s(DATE), s(DEFAULT_DATE));
    m.insert(s(VERSION), s(DEFAULT_VERSION));
    assert_eq!(m.format(" / "), "Foo");
    m.insert(s(VERSION), s("0.0.1"));
    assert_eq!(m.format(" / "), "Foo / 0.0.1");
}

#[test]
fn title_without_a_name_starts_with_the_separator() {
    let mut m = Metadata::new();
    m.insert(s(DATE), s("not a date"));
    assert_eq!(m.format("."), ".not a date");
    assert_eq!(Metadata::new().format("."), "");
}

#[test]
fn constants_hold_the_documented_texts() {
    assert_eq!(NAME, "name");
    assert_eq!(metadata::DESCRIPTION, "description");
    assert_eq!(metadata::AUTHORS, "authors");
    assert_eq!(VERSION, "version");
    assert_eq!(DATE, "date");
    assert_eq!(DEFAULT_DATE, "1970-01-01");
    assert_eq!(DEFAULT_VERSION, "0.0.0");
}
