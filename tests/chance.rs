use exercises::facts::{Fact, HasFact};
use exercises::random::Random;
use exercises::secrets::{generate_password, new_access_token, select_rand_val, text_hash};

#[test]
fn random_picks_one_of_three() {
    let r = Random::new([1, 2, 3]);
    for _ in 0..20 {
        assert!([1, 2, 3].contains(r.random()));
    }
}

#[test]
fn random_from_array() {
    let r = Random::from([5, 5, 5]);
    assert_eq!(*r.random(), 5);
}

#[test]
fn fact_names_the_type() {
    let f: Fact<Vec<()>> = Fact::new();
    let line = f.fact();
    assert!(line.starts_with("Fact about Vec: "));
    assert!(line.ends_with('.'));
    let g: Fact<()> = Fact::new();
    assert!(g.fact().starts_with("Fact about (): "));
    let h: Fact<[i32]> = Fact::new();
    assert!(h.fact().starts_with("Fact about [i32]: "));
    assert_eq!(<Vec<u8> as HasFact>::name(), "Vec");
}

#[test]
fn password_draws_from_given_chars() {
    let chars: Vec<char> = "abc".chars().collect();
    let p = generate_password(16, &chars).unwrap();
    assert_eq!(p.chars().count(), 16);
    assert!(p.chars().all(|c| chars.contains(&c)));
    assert_eq!(generate_password(4, &[]), None);
}

#[test]
fn select_from_empty_is_none() {
    let empty: [u8; 0] = [];
    assert_eq!(select_rand_val(&empty), None);
    assert_eq!(select_rand_val(&[7]), Some(&7));
}

#[test]
fn token_is_64_alphanumerics() {
    let t = new_access_token();
    assert_eq!(t.len(), 64);
    assert!(t.chars().all(|c| c.is_ascii_alphanumeric()));
}

#[test]
fn sha3_of_known_text() {
    let h = text_hash("abc");
    let hex: String = h.iter().map(|b| format!("{:02x}", b)).collect();
    assert_eq!(
        hex,
        "3a985da74fe225b2045c172d6bd390bd855f086e3e9d525b46bfe24511431532"
    );
}
