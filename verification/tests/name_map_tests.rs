use cargo_liner::names::is_self;
use cargo_liner::{NameMap, SELF_PACKAGE};

fn name(text: &str) -> String {
    text.to_string()
}

#[test]
fn a_new_map_is_empty() {
    let map: NameMap<u32> = NameMap::new();
    assert_eq!(map.len(), 0);
    assert!(map.is_empty());
    assert_eq!(map.get("a"), None);
    assert!(!map.contains("a"));
    assert_eq!(map.name_list(), Vec::<String>::new());
}

#[test]
fn insert_binds_and_get_finds() {
    let mut map: NameMap<u32> = NameMap::new();
    assert_eq!(map.insert(name("b"), 2), None);
    assert_eq!(map.insert(name("a"), 1), None);
    assert_eq!(map.insert(name("c"), 3), None);
    assert_eq!(map.len(), 3);
    assert!(!map.is_empty());
    assert_eq!(map.get("a"), Some(&1));
    assert_eq!(map.get("b"), Some(&2));
    assert_eq!(map.get("c"), Some(&3));
    assert_eq!(map.get("d"), None);
    assert_eq!(map.get(""), None);
    assert!(map.contains("b"));
    assert!(!map.contains("bb"));
}

#[test]
fn insert_replaces_and_gives_the_old_value_back() {
    let mut map: NameMap<u32> = NameMap::new();
    assert_eq!(map.insert(name("a"), 1), None);
    assert_eq!(map.insert(name("a"), 7), Some(1));
    assert_eq!(map.len(), 1);
    assert_eq!(map.get("a"), Some(&7));
}

#[test]
fn entries_stand_in_the_order_of_their_names() {
    let mut map: NameMap<u32> = NameMap::new();
    for (i, text) in ["pear", "apple", "fig", "app", "zest", "Apple", "apple-pie", ""].iter().enumerate() {
        map.insert(name(text), i as u32);
    }
    assert_eq!(
        map.name_list(),
        vec!["", "Apple", "app", "apple", "apple-pie", "fig", "pear", "zest"]
    );
    assert_eq!(map.name_at(0), "");
    assert_eq!(map.name_at(3), "apple");
    assert_eq!(*map.value_at(3), 1);
    assert_eq!(map.name_at(7), "zest");
    assert_eq!(*map.value_at(7), 4);
}

#[test]
fn the_order_does_not_depend_on_the_order_of_insertion() {
    let names = ["delta", "alpha", "charlie", "bravo", "echo"];
    let mut forward: NameMap<usize> = NameMap::new();
    for (i, text) in names.iter().enumerate() {
        forward.insert(name(text), i);
    }
    let mut backward: NameMap<usize> = NameMap::new();
    for (i, text) in names.iter().enumerate().rev() {
        backward.insert(name(text), i);
    }
    assert_eq!(forward, backward);
    assert_eq!(forward.name_list(), vec!["alpha", "bravo", "charlie", "delta", "echo"]);
}

#[test]
fn names_are_ordered_by_code_point() {
    let mut map: NameMap<()> = NameMap::new();
    for text in ["é", "z", "a\u{10000}", "a\u{ffff}", "a"] {
        map.insert(name(text), ());
    }
    assert_eq!(map.name_list(), vec!["a", "a\u{ffff}", "a\u{10000}", "z", "é"]);
}

#[test]
fn many_entries_are_all_found() {
    let mut map: NameMap<usize> = NameMap::new();
    for i in (0..200).rev() {
        map.insert(format!("package-{:03}", (i * 37) % 200), i);
    }
    assert_eq!(map.len(), 200);
    for i in 0..200 {
        assert_eq!(map.get(&format!("package-{:03}", (i * 37) % 200)), Some(&i));
        assert_eq!(map.name_at(i), format!("package-{:03}", i));
    }
    assert_eq!(map.get("package-200"), None);
}

#[test]
fn the_tool_knows_its_own_name() {
    assert_eq!(SELF_PACKAGE, "cargo-liner");
    assert!(is_self("cargo-liner"));
    assert!(!is_self("cargo-line"));
    assert!(!is_self("cargo-liners"));
    assert!(!is_self("Cargo-liner"));
    assert!(!is_self(""));
}
