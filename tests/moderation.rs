use exercises::moderation::{NewPost, Post};
use exercises::{post, user};

fn submitted() -> NewPost {
    NewPost {
        id: post::Id::from(7),
        user_id: user::Id::from(3),
        title: post::Title("Hello".to_string()),
        body: post::Body("First post".to_string()),
    }
}

#[test]
fn published_post_keeps_content() {
    let p = Post::new(submitted()).publish().allow();
    assert_eq!(*p.id(), post::Id(7));
    assert_eq!(*p.user_id(), user::Id(3));
    assert_eq!(p.title().0, "Hello");
    assert_eq!(p.body().0, "First post");
}

#[test]
fn denied_and_deleted_posts_keep_content() {
    let denied = Post::new(submitted()).publish().deny();
    assert_eq!(*denied.id(), post::Id(7));
    let deleted = Post::new(submitted()).publish().allow().delete();
    assert_eq!(*deleted.user_id(), user::Id(3));
    assert_eq!(deleted.title().0, "Hello");
}

#[test]
fn from_new_post_keeps_content() {
    let p = Post::from(submitted());
    assert_eq!(*p.id(), post::Id(7));
    assert_eq!(p.body().0, "First post");
}
