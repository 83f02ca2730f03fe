use gitm::repos::{Remote, RepoSet};

fn text(s: &str) -> String {
    s.to_string()
}

#[test]
fn repo_set_starts_empty() {
    let set = RepoSet::new();
    assert_eq!(set.len(), 0);
    assert!(set.is_empty());
    assert!(set.entries().is_empty());
    assert!(!set.contains_key(&text("origin")));
    assert_eq!(set.get(&text("origin")), None);
}

#[test]
fn insert_appends_new_names_in_order() {
    let mut set = RepoSet::new();
    assert_eq!(set.insert(text("origin"), text("U0")), None);
    assert_eq!(set.insert(text("a"), text("U1")), None);
    assert_eq!(set.insert(text("b"), text("U2")), None);
    assert_eq!(set.len(), 3);
    assert!(!set.is_empty());
    assert_eq!(
        set.entries(),
        &vec![
            Remote { name: text("origin"), url: text("U0") },
            Remote { name: text("a"), url: text("U1") },
            Remote { name: text("b"), url: text("U2") },
        ]
    );
}

#[test]
fn insert_replaces_url_in_place_and_returns_old_one() {
    let mut set = RepoSet::new();
    set.insert(text("origin"), text("U0"));
    set.insert(text("a"), text("U1"));
    assert_eq!(set.insert(text("origin"), text("U9")), Some(text("U0")));
    assert_eq!(set.len(), 2);
    assert_eq!(
        set.entries(),
        &vec![
            Remote { name: text("origin"), url: text("U9") },
            Remote { name: text("a"), url: text("U1") },
        ]
    );
}

#[test]
fn get_finds_the_url_by_name() {
    let mut set = RepoSet::new();
    set.insert(text("origin"), text("U0"));
    set.insert(text("a"), text("U1"));
    assert_eq!(set.get(&text("a")), Some(&text("U1")));
    assert_eq!(set.get(&text("origin")), Some(&text("U0")));
    assert_eq!(set.get(&text("b")), None);
    assert!(set.contains_key(&text("a")));
    assert!(!set.contains_key(&text("U1")));
    assert!(!set.contains_key(&text("")));
}

#[test]
fn names_compare_as_whole_strings() {
    let mut set = RepoSet::new();
    set.insert(text("origin"), text("U0"));
    assert!(!set.contains_key(&text("origi")));
    assert!(!set.contains_key(&text("origin ")));
    assert!(!set.contains_key(&text("Origin")));
    assert_eq!(set.insert(text("Origin"), text("U1")), None);
    assert_eq!(set.len(), 2);
}
