use assignment_backend::identity::Identity;
use candid::Principal;

fn identity_of(bytes: &[u8]) -> Identity {
    Identity::new(bytes.to_vec())
}

#[test]
fn identity_keeps_its_bytes() {
    let who = identity_of(&[4, 0, 255]);
    assert_eq!(who.as_bytes(), &vec![4u8, 0, 255]);
    assert_eq!(who.clone(), who);
}

#[test]
fn same_compares_every_byte() {
    assert!(identity_of(&[]).same(&identity_of(&[])));
    assert!(identity_of(&[1, 2, 3]).same(&identity_of(&[1, 2, 3])));
    assert!(!identity_of(&[1, 2, 3]).same(&identity_of(&[1, 2, 4])));
    assert!(!identity_of(&[1, 2, 3]).same(&identity_of(&[1, 2])));
    assert!(!identity_of(&[1, 2]).same(&identity_of(&[1, 2, 0])));
}

#[test]
fn shorter_identity_comes_first() {
    assert!(identity_of(&[]).precedes(&identity_of(&[0])));
    assert!(identity_of(&[255]).precedes(&identity_of(&[0, 0])));
    assert!(!identity_of(&[0, 0]).precedes(&identity_of(&[255])));
}

#[test]
fn identities_of_one_length_are_ordered_bytewise() {
    assert!(identity_of(&[1, 2, 3]).precedes(&identity_of(&[1, 2, 4])));
    assert!(identity_of(&[1, 2, 3]).precedes(&identity_of(&[1, 3, 0])));
    assert!(identity_of(&[0, 255]).precedes(&identity_of(&[1, 0])));
    assert!(!identity_of(&[1, 2, 4]).precedes(&identity_of(&[1, 2, 3])));
    assert!(!identity_of(&[1, 0]).precedes(&identity_of(&[0, 255])));
}

#[test]
fn no_identity_precedes_itself() {
    assert!(!identity_of(&[]).precedes(&identity_of(&[])));
    assert!(!identity_of(&[7, 7]).precedes(&identity_of(&[7, 7])));
}

#[test]
fn order_of_identities_is_the_order_of_principals() {
    let samples: Vec<Vec<u8>> = vec![
        vec![],
        vec![0],
        vec![4],
        vec![255],
        vec![0, 0],
        vec![0, 1],
        vec![1, 0],
        vec![255, 255],
        vec![1, 2, 3],
        vec![1, 2, 4],
        vec![9; 29],
        vec![0; 29],
        vec![0, 0, 0, 0, 0, 0, 0, 1, 1, 1],
    ];
    for a in samples.iter() {
        for b in samples.iter() {
            let pa = Principal::from_slice(a);
            let pb = Principal::from_slice(b);
            assert_eq!(identity_of(a).precedes(&identity_of(b)), pa < pb);
            assert_eq!(identity_of(a).same(&identity_of(b)), pa == pb);
        }
    }
}
