use ts_runtime::linear_map::{LinearMap, LinearSet};
use ts_runtime::transport::PeerId;

#[test]
fn map_holds_the_last_value_of_each_key() {
    let mut map = LinearMap::new();
    assert_eq!(map.insert(PeerId(1), 'a'), None);
    assert_eq!(map.insert(PeerId(2), 'b'), None);
    assert_eq!(map.insert(PeerId(1), 'c'), Some('a'));
    assert_eq!(map.len(), 2);
    assert_eq!(map.get(&PeerId(1)), Some(&'c'));
    *map.get_mut(&PeerId(2)).unwrap() = 'd';
    assert_eq!(map.copied().get(&PeerId(2)), Some(&'d'));
    assert_eq!(map.remove(&PeerId(1)), Some('c'));
    assert_eq!(map.remove(&PeerId(1)), None);
    assert_eq!(map.key_list(), vec![PeerId(2)]);
    assert_eq!((map.key_at(0), map.value_at(0)), (&PeerId(2), &'d'));
    map.clear();
    assert!(map.is_empty());
}

#[test]
fn set_holds_each_item_once() {
    let mut set = LinearSet::from_list(&vec![PeerId(1), PeerId(2), PeerId(1)]);
    assert_eq!(set.len(), 2);
    assert!(!set.insert(PeerId(2)));
    assert!(set.insert(PeerId(3)));
    assert!(set.contains(&PeerId(3)));
    let other = LinearSet::from_list(&vec![PeerId(2), PeerId(4)]);
    assert_eq!(set.difference(&other), vec![PeerId(1), PeerId(3)]);
    assert_eq!(set.to_list().len(), 3);
    assert_eq!(set.item_at(0), &PeerId(1));
    set.clear();
    assert!(set.is_empty());
}
