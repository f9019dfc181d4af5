use elogbook::models::DownloadRequest;
use elogbook::table::StringMap;

fn request(path: &str) -> DownloadRequest {
    DownloadRequest { file_path: path.to_string(), original_name: "n".to_string() }
}

#[test]
fn map_starts_empty() {
    let map: StringMap<DownloadRequest> = StringMap::new();
    assert_eq!(map.len(), 0);
    assert!(map.get(&"a".to_string()).is_none());
    assert!(!map.contains_key(&"a".to_string()));
}

#[test]
fn map_insert_replaces_and_reports() {
    let mut map = StringMap::new();
    assert!(map.insert("a".to_string(), request("/1")).is_none());
    assert!(map.insert("b".to_string(), request("/2")).is_none());
    let previous = map.insert("a".to_string(), request("/3")).unwrap();
    assert_eq!(previous.file_path, "/1");
    assert_eq!(map.len(), 2);
    assert_eq!(map.get(&"a".to_string()).unwrap().file_path, "/3");
    assert_eq!(map.get(&"b".to_string()).unwrap().file_path, "/2");
}

#[test]
fn map_remove_takes_one_key() {
    let mut map = StringMap::new();
    map.insert("a".to_string(), request("/1"));
    map.insert("b".to_string(), request("/2"));
    map.insert("c".to_string(), request("/3"));
    assert_eq!(map.remove(&"b".to_string()).unwrap().file_path, "/2");
    assert!(map.remove(&"b".to_string()).is_none());
    assert_eq!(map.len(), 2);
    assert!(map.contains_key(&"a".to_string()));
    assert!(!map.contains_key(&"b".to_string()));
    assert_eq!(map.get(&"c".to_string()).unwrap().file_path, "/3");
}

#[test]
fn map_pop_empties_the_map() {
    let mut map = StringMap::new();
    map.insert("a".to_string(), request("/1"));
    map.insert("b".to_string(), request("/2"));
    let mut seen = Vec::new();
    while let Some((key, value)) = map.pop() {
        assert!(!map.contains_key(&key));
        seen.push((key, value.file_path));
    }
    seen.sort();
    assert_eq!(seen, vec![("a".to_string(), "/1".to_string()), ("b".to_string(), "/2".to_string())]);
    assert_eq!(map.len(), 0);
    assert!(map.pop().is_none());
}

#[test]
fn map_keys_are_compared_by_their_text() {
    let mut map = StringMap::new();
    map.insert(String::new(), request("/empty"));
    map.insert("é".to_string(), request("/accent"));
    map.insert("e".to_string(), request("/plain"));
    assert_eq!(map.len(), 3);
    assert_eq!(map.get(&String::new()).unwrap().file_path, "/empty");
    assert_eq!(map.get(&"é".to_string()).unwrap().file_path, "/accent");
    assert_eq!(map.get(&"e".to_string()).unwrap().file_path, "/plain");
    assert!(map.get(&"E".to_string()).is_none());
}

#[test]
fn map_copy_is_independent() {
    let mut map = StringMap::new();
    map.insert("a".to_string(), request("/1"));
    map.insert("b".to_string(), request("/2"));
    let mut copy = map.clone();
    assert_eq!(copy.len(), 2);
    assert_eq!(copy.get(&"a".to_string()).unwrap().file_path, "/1");
    assert_eq!(copy.get(&"b".to_string()).unwrap().file_path, "/2");
    copy.remove(&"a".to_string());
    copy.insert("c".to_string(), request("/3"));
    assert!(map.contains_key(&"a".to_string()));
    assert!(!map.contains_key(&"c".to_string()));
    assert_eq!(map.len(), 2);
}
