use vstd::prelude::*;
use std::collections::HashMap;
use std::marker::PhantomData;

verus! {

broadcast use vstd::std_specs::hash::group_hash_axioms;

/// A request that a handler can act on.
pub trait Command {}

/// Something that acts on commands of type `C`, in a context.
pub trait CommandHandler<C: Command> {
    type Context;

    type Result;

    fn handle_command(&self, cmd: &C, ctx: &mut Self::Context) -> Self::Result;
}

/// A registered user.
#[derive(Debug, Clone)]
pub struct User {
    pub id: u64,
    pub email: String,
    pub activated: bool,
}

/// A repository refused a request.
#[derive(Debug, PartialEq, Eq, Structural)]
pub struct UserError;

/// A key-value store.
pub trait Storage<K, V> {
    /// What the store holds.
    spec fn contents(&self) -> Map<K, V>;

    /// Stores `val` under `key`, replacing what was there.
    fn set(&mut self, key: K, val: V)
        ensures
            final(self).contents() == old(self).contents().insert(key, val),
    ;

    /// What is stored under `key`.
    fn get(&self, key: &K) -> (r: Option<&V>)
        ensures
            self.contents().contains_key(*key) ==> r == Some(&self.contents()[*key]),
            !self.contents().contains_key(*key) ==> r is None,
    ;

    /// Takes out what is stored under `key`.
    fn remove(&mut self, key: &K) -> (r: Option<V>)
        ensures
            old(self).contents().contains_key(*key) ==> r == Some(old(self).contents()[*key]),
            !old(self).contents().contains_key(*key) ==> r is None,
            final(self).contents() == old(self).contents().remove(*key),
    ;
}

/// Users in memory, by numeric key.
pub struct UserStorage(HashMap<u64, User>);

impl UserStorage {
    /// An empty store.
    pub fn new() -> (r: UserStorage)
        ensures
            r.contents() == Map::<u64, User>::empty(),
    {
        UserStorage(HashMap::new())
    }
}

impl Storage<u64, User> for UserStorage {
    closed spec fn contents(&self) -> Map<u64, User> {
        self.0@
    }

    fn set(&mut self, key: u64, val: User) {
        self.0.insert(key, val);
    }

    fn get(&self, key: &u64) -> (r: Option<&User>) {
        self.0.get(key)
    }

    fn remove(&mut self, key: &u64) -> (r: Option<User>) {
        self.0.remove(key)
    }
}

/// Users kept in a store `S` under keys of type `K`.
pub struct UserRepo<K, S> {
    storage: S,
    k: PhantomData<K>,
}

impl<K, S: Storage<K, User>> UserRepo<K, S> {
    /// What the repository holds.
    pub closed spec fn users(&self) -> Map<K, User> {
        self.storage.contents()
    }

    /// A repository over `storage`, holding what it holds.
    pub fn new(storage: S) -> (r: Self)
        ensures
            r.users() == storage.contents(),
    {
        UserRepo { storage, k: PhantomData }
    }

    /// The user under `key`.
    pub fn get(&self, key: K) -> (r: Option<&User>)
        ensures
            self.users().contains_key(key) ==> r == Some(&self.users()[key]),
            !self.users().contains_key(key) ==> r is None,
    {
        self.storage.get(&key)
    }

    /// Adds `user` under `key`; refused where `key` is taken.
    pub fn add(&mut self, key: K, user: User) -> (r: Result<(), UserError>)
        ensures
            old(self).users().contains_key(key) ==> r == Err::<(), UserError>(UserError)
                && final(self).users() == old(self).users(),
            !old(self).users().contains_key(key) ==> r == Ok::<(), UserError>(())
                && final(self).users() == old(self).users().insert(key, user),
    {
        if self.storage.get(&key).is_some() {
            Err(UserError)
        } else {
            self.storage.set(key, user);
            Ok(())
        }
    }

    /// Replaces the user under `key`, if there is one, and hands back the
    /// one replaced.
    pub fn update(&mut self, key: K, user: User) -> (r: Option<User>)
        ensures
            old(self).users().contains_key(key) ==> r == Some(old(self).users()[key])
                && final(self).users() == old(self).users().insert(key, user),
            !old(self).users().contains_key(key) ==> r is None && final(self).users()
                == old(self).users(),
    {
        match self.storage.remove(&key) {
            Some(prev) => {
                self.storage.set(key, user);
                proof {
                    assert(self.users() =~= old(self).users().insert(key, user));
                }
                Some(prev)
            },
            None => {
                proof {
                    assert(self.users() =~= old(self).users());
                }
                None
            },
        }
    }

    /// Takes out the user under `key`.
    pub fn remove(&mut self, key: K) -> (r: Option<User>)
        ensures
            old(self).users().contains_key(key) ==> r == Some(old(self).users()[key]),
            !old(self).users().contains_key(key) ==> r is None,
            final(self).users() == old(self).users().remove(key),
    {
        self.storage.remove(&key)
    }
}

/// A request to store a user under `key`.
pub struct CreateUser {
    pub key: u64,
}

impl Command for CreateUser {}

impl CommandHandler<CreateUser> for User {
    type Context = UserRepo<u64, UserStorage>;

    type Result = Result<(), UserError>;

    fn handle_command(&self, cmd: &CreateUser, ctx: &mut UserRepo<u64, UserStorage>) -> Result<(), UserError> {
        ctx.add(cmd.key, self.clone())
    }
}

} // verus!
