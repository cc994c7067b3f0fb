use assignment_backend::identity::Identity;
use assignment_backend::identity_map::IdentityMap;

fn key(bytes: &[u8]) -> Identity {
    Identity::new(bytes.to_vec())
}

#[test]
fn empty_map_holds_no_key() {
    let map: IdentityMap<u32> = IdentityMap::new();
    assert_eq!(map.len(), 0);
    assert_eq!(map.get(&key(&[1])), None);
    assert!(!map.contains_key(&key(&[])));
}

#[test]
fn insert_then_get() {
    let mut map: IdentityMap<u32> = IdentityMap::new();
    map.insert(key(&[5]), 50);
    map.insert(key(&[1, 1]), 110);
    map.insert(key(&[2]), 20);
    assert_eq!(map.len(), 3);
    assert_eq!(map.get(&key(&[5])), Some(&50));
    assert_eq!(map.get(&key(&[2])), Some(&20));
    assert_eq!(map.get(&key(&[1, 1])), Some(&110));
    assert_eq!(map.get(&key(&[1])), None);
    assert_eq!(map.get(&key(&[1, 1, 1])), None);
    assert!(map.contains_key(&key(&[2])));
    assert!(!map.contains_key(&key(&[3])));
}

#[test]
fn insert_replaces_the_value_of_a_key() {
    let mut map: IdentityMap<u32> = IdentityMap::new();
    map.insert(key(&[5]), 1);
    map.insert(key(&[6]), 2);
    map.insert(key(&[5]), 3);
    assert_eq!(map.len(), 2);
    assert_eq!(map.get(&key(&[5])), Some(&3));
    assert_eq!(map.get(&key(&[6])), Some(&2));
}

#[test]
fn keys_are_listed_in_ascending_order() {
    let mut map: IdentityMap<u32> = IdentityMap::new();
    let keys: Vec<Vec<u8>> = vec![
        vec![9, 9],
        vec![3],
        vec![],
        vec![200],
        vec![0, 0, 0],
        vec![9, 8],
        vec![4],
        vec![0, 1],
    ];
    for (n, k) in keys.iter().enumerate() {
        map.insert(key(k), n as u32);
    }
    let expected: Vec<(Vec<u8>, u32)> = vec![
        (vec![], 2),
        (vec![3], 1),
        (vec![4], 6),
        (vec![200], 3),
        (vec![0, 1], 7),
        (vec![9, 8], 5),
        (vec![9, 9], 0),
        (vec![0, 0, 0], 4),
    ];
    assert_eq!(map.len(), expected.len());
    for (i, (k, v)) in expected.iter().enumerate() {
        assert_eq!(map.key_at(i).as_bytes(), k);
        assert_eq!(map.value_at(i), v);
    }
}

#[test]
fn many_keys_are_found_again() {
    let mut map: IdentityMap<u32> = IdentityMap::new();
    for n in 0..500u32 {
        let k = (n * 7919) % 1000;
        map.insert(key(&[(k / 256) as u8, (k % 256) as u8]), k);
    }
    for n in 0..500u32 {
        let k = (n * 7919) % 1000;
        assert_eq!(map.get(&key(&[(k / 256) as u8, (k % 256) as u8])), Some(&k));
    }
    for i in 1..map.len() {
        assert!(map.key_at(i - 1).precedes(map.key_at(i)));
    }
}

#[test]
fn walk_from_a_key_begins_at_the_first_key_not_below_it() {
    let mut map: IdentityMap<u32> = IdentityMap::new();
    for k in [10u8, 20, 30, 40] {
        map.insert(key(&[k]), k as u32);
    }
    assert_eq!(map.position_from(&key(&[])), 0);
    assert_eq!(map.position_from(&key(&[10])), 0);
    assert_eq!(map.position_from(&key(&[11])), 1);
    assert_eq!(map.position_from(&key(&[30])), 2);
    assert_eq!(map.position_from(&key(&[41])), 4);
    assert_eq!(map.position_from(&key(&[0, 0])), 4);
    let from = map.position_from(&key(&[25]));
    let mut walked: Vec<u32> = Vec::new();
    for i in from..map.len() {
        walked.push(*map.value_at(i));
    }
    assert_eq!(walked, vec![30, 40]);
}
