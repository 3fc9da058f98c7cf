use vstd::prelude::*;
use crate::post;
use crate::user;

verus! {

/// A post that has just been written.
#[derive(Debug, Default, Clone, Copy)]
pub struct New;

/// A post waiting for a moderator.
#[derive(Debug, Default, Clone, Copy)]
pub struct Unmoderated;

/// A post that readers see.
#[derive(Debug, Default, Clone, Copy)]
pub struct Published;

/// A post that is gone.
#[derive(Debug, Default, Clone, Copy)]
pub struct Deleted;

/// Closes `State` to the four states above.
pub trait Sealed {}

impl Sealed for New {}
impl Sealed for Unmoderated {}
impl Sealed for Published {}
impl Sealed for Deleted {}

/// A stage in the life of a post.
pub trait State: Sealed {}

impl State for New {}
impl State for Unmoderated {}
impl State for Published {}
impl State for Deleted {}

/// What a user submits.
#[derive(Clone)]
pub struct NewPost {
    pub id: post::Id,
    pub user_id: user::Id,
    pub title: post::Title,
    pub body: post::Body,
}

/// A post in state `S`; a transition consumes the post and keeps its
/// content.
#[derive(Clone)]
pub struct Post<S: State> {
    id: post::Id,
    user_id: user::Id,
    title: post::Title,
    body: post::Body,
    state: S,
}

impl<S: State> Post<S> {
    pub closed spec fn id_of(&self) -> post::Id {
        self.id
    }

    pub closed spec fn user_id_of(&self) -> user::Id {
        self.user_id
    }

    pub closed spec fn title_of(&self) -> post::Title {
        self.title
    }

    pub closed spec fn body_of(&self) -> post::Body {
        self.body
    }

    /// Whether `self` and `p` hold the same content, whatever their states.
    pub open spec fn same_content<S2: State>(&self, p: &Post<S2>) -> bool {
        &&& self.id_of() == p.id_of()
        &&& self.user_id_of() == p.user_id_of()
        &&& self.title_of() == p.title_of()
        &&& self.body_of() == p.body_of()
    }
}

impl From<NewPost> for Post<New> {
    /// A new post with what the user submitted.
    fn from(p: NewPost) -> (r: Post<New>)
        ensures
            r.id_of() == p.id,
            r.user_id_of() == p.user_id,
            r.title_of() == p.title,
            r.body_of() == p.body,
    {
        Post { id: p.id, user_id: p.user_id, title: p.title, body: p.body, state: New }
    }
}

impl vstd::std_specs::convert::FromSpecImpl<NewPost> for Post<New> {
    open spec fn obeys_from_spec() -> bool {
        true
    }

    closed spec fn from_spec(p: NewPost) -> Post<New> {
        Post { id: p.id, user_id: p.user_id, title: p.title, body: p.body, state: New }
    }
}

impl Post<New> {
    /// A new post with what the user submitted.
    pub fn new(p: NewPost) -> (r: Post<New>)
        ensures
            r.id_of() == p.id,
            r.user_id_of() == p.user_id,
            r.title_of() == p.title,
            r.body_of() == p.body,
    {
        Post::from(p)
    }

    /// Submits the post to moderation.
    pub fn publish(self) -> (r: Post<Unmoderated>)
        ensures
            r.same_content(&self),
    {
        Post {
            id: self.id,
            user_id: self.user_id,
            title: self.title,
            body: self.body,
            state: Unmoderated,
        }
    }
}

impl Post<Unmoderated> {
    /// The moderator lets the post through.
    pub fn allow(self) -> (r: Post<Published>)
        ensures
            r.same_content(&self),
    {
        Post { id: self.id, user_id: self.user_id, title: self.title, body: self.body, state: Published }
    }

    /// The moderator turns the post down.
    pub fn deny(self) -> (r: Post<Deleted>)
        ensures
            r.same_content(&self),
    {
        Post { id: self.id, user_id: self.user_id, title: self.title, body: self.body, state: Deleted }
    }
}

impl Post<Published> {
    /// Takes a published post down.
    pub fn delete(self) -> (r: Post<Deleted>)
        ensures
            r.same_content(&self),
    {
        Post { id: self.id, user_id: self.user_id, title: self.title, body: self.body, state: Deleted }
    }
}

impl<S: State> Post<S> {
    /// Identifier of the post.
    pub fn id(&self) -> (r: &post::Id)
        ensures
            *r == self.id_of(),
    {
        &self.id
    }

    /// Identifier of the author.
    pub fn user_id(&self) -> (r: &user::Id)
        ensures
            *r == self.user_id_of(),
    {
        &self.user_id
    }

    /// Title of the post.
    pub fn title(&self) -> (r: &post::Title)
        ensures
            *r == self.title_of(),
    {
        &self.title
    }

    /// Body of the post.
    pub fn body(&self) -> (r: &post::Body)
        ensures
            *r == self.body_of(),
    {
        &self.body
    }
}

} // verus!
