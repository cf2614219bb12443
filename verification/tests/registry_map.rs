use prim::registry::Registry;

#[test]
fn registry_stores_and_replaces() {
    let mut r = Registry::new();
    assert_eq!(r.get(1), None);
    assert!(!r.contains(1));
    assert_eq!(r.insert(1, 10), None);
    assert_eq!(r.insert(2, 20), None);
    assert_eq!(r.get(1), Some(10));
    assert!(r.contains(2));
    assert_eq!(r.insert(1, 11), Some(10));
    assert_eq!(r.get(1), Some(11));
    assert_eq!(r.get(2), Some(20));
}

#[test]
fn registry_removes() {
    let mut r = Registry::new();
    r.insert(1, 10);
    r.insert(2, 20);
    assert_eq!(r.remove(3), None);
    assert_eq!(r.remove(1), Some(10));
    assert_eq!(r.get(1), None);
    assert_eq!(r.get(2), Some(20));
    assert_eq!(r.remove(1), None);
}

#[test]
fn registry_removes_only_what_is_held() {
    let mut r = Registry::new();
    r.insert(1, 10);
    assert!(!r.remove_if_held(1, 99));
    assert_eq!(r.get(1), Some(10));
    assert!(!r.remove_if_held(2, 10));
    assert!(r.remove_if_held(1, 10));
    assert_eq!(r.get(1), None);
}

#[test]
fn registry_lists_each_id_once() {
    let mut r = Registry::new();
    for id in [5u64, 3, 9, 3, 5] {
        r.insert(id, id * 2);
    }
    let mut ids = r.ids();
    ids.sort();
    assert_eq!(ids, vec![3, 5, 9]);
}
