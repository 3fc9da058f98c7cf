use exercises::repo::{CommandHandler, CreateUser, User, UserError, UserRepo, UserStorage};

fn user(id: u64) -> User {
    User {
        id,
        email: "asd@asd.asd".to_string(),
        activated: false,
    }
}

#[test]
fn test_name() {
    let mut user_repo = UserRepo::new(UserStorage::new());

    let user = User {
        id: 1,
        email: "asd@asd.asd".to_string(),
        activated: false,
    };

    user.handle_command(&CreateUser { key: 1 }, &mut user_repo)
        .unwrap();

    assert!(user_repo.get(1).is_some());
}

#[test]
fn add_refuses_taken_key() {
    let mut repo = UserRepo::new(UserStorage::new());
    assert_eq!(repo.add(5, user(1)), Ok(()));
    assert_eq!(repo.add(5, user(2)), Err(UserError));
    assert_eq!(repo.get(5).map(|u| u.id), Some(1));
}

#[test]
fn update_and_remove() {
    let mut repo = UserRepo::new(UserStorage::new());
    assert!(repo.update(9, user(1)).is_none());
    assert!(repo.get(9).is_none());
    repo.add(9, user(1)).unwrap();
    assert_eq!(repo.update(9, user(2)).map(|u| u.id), Some(1));
    assert_eq!(repo.get(9).map(|u| u.id), Some(2));
    assert_eq!(repo.remove(9).map(|u| u.id), Some(2));
    assert!(repo.remove(9).is_none());
}
