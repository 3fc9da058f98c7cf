use exercises::collections::{contains_bytes, User, UserId, UserMap, UserRepository};

fn map() -> UserMap {
    im::OrdMap::new()
        .update(UserId::from(1).0, User::new("first"))
        .update(UserId::from(2).0, User::new("second"))
        .update(UserId::from(3).0, User::new("third"))
}

#[test]
fn test_get() {
    let map = map();

    let u = map.get_user(1);
    assert_eq!(u, Some(User::new("first")));
}

#[test]
fn test_get_many() {
    let map = map();

    let us = map.get_many(vec![3, 1]);
    let expected: UserMap = im::OrdMap::new()
        .update(3, User::new("third"))
        .update(1, User::new("first"));
    assert_eq!(us, expected);
}

#[test]
fn ids_by_nickname() {
    let map = map();

    let us = map.ids_by_nickname("ir");
    let expected: im::OrdSet<u64> = im::OrdSet::new().update(3).update(1);
    assert_eq!(us, expected);
}

#[test]
fn missing_ids_are_skipped() {
    let map = map();
    assert_eq!(map.get_user(9), None);
    assert!(map.get_many(vec![9, 8]).is_empty());
    assert!(map.ids_by_nickname("zz").is_empty());
    assert_eq!(map.ids_by_nickname("").len(), 3);
}

#[test]
fn finds_byte_infixes() {
    assert!(contains_bytes(b"second", b"con"));
    assert!(contains_bytes(b"abc", b""));
    assert!(!contains_bytes(b"ab", b"abc"));
    assert!(!contains_bytes(b"abc", b"ac"));
}
