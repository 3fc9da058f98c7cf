use std::collections::HashMap;

use exercises::email::{EmailString, InvalidEmail};

#[test]
#[should_panic]
fn feature() {
    EmailString::new("hi").unwrap();
}

#[test]
fn test_email_string() {
    let email1 = EmailString::new("test@example.com").unwrap();
    let email2 = EmailString::try_from("test-1-hello@example2.com".to_string()).unwrap();

    let mut map = HashMap::new();

    map.insert(email1, "user1");
    map.insert(email2, "user2");

    assert_eq!(map.get("test@example.com"), Some(&"user1"));
}

#[test]
fn text_without_address_is_refused() {
    assert_eq!(EmailString::new("hi"), Err(InvalidEmail));
    assert_eq!(EmailString::new(""), Err(InvalidEmail));
}

#[test]
fn accepted_address_keeps_its_text() {
    let e = EmailString::new("a.b@c.org").unwrap();
    assert_eq!(e.as_str(), "a.b@c.org");
}

#[test]
fn accept_follows_the_match() {
    assert!(EmailString::accept("x".to_string(), true).is_ok());
    assert_eq!(EmailString::accept("x".to_string(), false), Err(InvalidEmail));
}
