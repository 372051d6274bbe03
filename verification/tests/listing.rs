use skip_filter::FilterMap;

fn names(list: &[&str]) -> Vec<String> {
    list.iter().map(|name| name.to_string()).collect()
}

#[test]
fn new_mapping_is_empty() {
    let map = FilterMap::new();
    assert_eq!(map.len(), 0);
    assert!(!map.contains_key(&"a".to_string()));
    assert_eq!(map.get(&"a".to_string()), None);
}

#[test]
fn inserted_list_is_found_under_its_folder() {
    let mut map = FilterMap::new();
    map.insert("a".to_string(), names(&["1", "2"]));
    map.insert("b".to_string(), names(&[]));
    assert_eq!(map.len(), 2);
    assert!(map.contains_key(&"a".to_string()));
    assert!(map.contains_key(&"b".to_string()));
    assert!(!map.contains_key(&"c".to_string()));
    assert_eq!(map.get(&"a".to_string()), Some(&names(&["1", "2"])));
    assert_eq!(map.get(&"b".to_string()), Some(&names(&[])));
    assert_eq!(map.get(&"c".to_string()), None);
}

#[test]
fn folders_keep_the_order_of_insertion() {
    let mut map = FilterMap::new();
    map.insert("b".to_string(), names(&["1"]));
    map.insert("a".to_string(), names(&["2"]));
    map.insert("c".to_string(), names(&["3"]));
    assert_eq!(map.folder(0), "b");
    assert_eq!(map.folder(1), "a");
    assert_eq!(map.folder(2), "c");
    assert_eq!(map.names(0), &names(&["1"]));
    assert_eq!(map.names(1), &names(&["2"]));
    assert_eq!(map.names(2), &names(&["3"]));
}

#[test]
fn second_insert_replaces_the_list() {
    let mut map = FilterMap::new();
    map.insert("a".to_string(), names(&["1"]));
    map.insert("b".to_string(), names(&["2"]));
    map.insert("a".to_string(), names(&["3", "4"]));
    assert_eq!(map.len(), 2);
    assert_eq!(map.folder(0), "a");
    assert_eq!(map.folder(1), "b");
    assert_eq!(map.get(&"a".to_string()), Some(&names(&["3", "4"])));
    assert_eq!(map.get(&"b".to_string()), Some(&names(&["2"])));
}

#[test]
fn list_keeps_duplicates_and_order() {
    let mut map = FilterMap::new();
    map.insert("a".to_string(), names(&["z", "a", "z"]));
    assert_eq!(map.names(0), &names(&["z", "a", "z"]));
}
