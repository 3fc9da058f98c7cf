use vstd::prelude::*;
use vstd::string::StringSliceAdditionalSpecFns;
use vstd::utf8::encode_utf8;

verus! {

#[verifier::external_type_specification]
#[verifier::external_body]
#[verifier::reject_recursive_types(K)]
#[verifier::reject_recursive_types(V)]
pub struct ExOrdMap<K, V>(im::OrdMap<K, V>);

#[verifier::external_type_specification]
#[verifier::external_body]
#[verifier::reject_recursive_types(A)]
pub struct ExOrdSet<A>(im::OrdSet<A>);

/// Identifier of a user.
#[derive(Debug, Clone, Copy, PartialEq, Eq, Structural, PartialOrd, Ord)]
pub struct UserId(pub u64);

impl From<u64> for UserId {
    fn from(id: u64) -> (r: UserId)
        ensures
            r.0 == id,
    {
        UserId(id)
    }
}

impl vstd::std_specs::convert::FromSpecImpl<u64> for UserId {
    open spec fn obeys_from_spec() -> bool {
        true
    }

    open spec fn from_spec(id: u64) -> UserId {
        UserId(id)
    }
}

/// A user known by a nickname.
#[derive(Debug, Clone, PartialEq, Eq)]
pub struct User {
    pub nickname: String,
}

impl User {
    pub fn new(nickname: &str) -> (r: User)
        ensures
            r.nickname@ == nickname@,
    {
        User { nickname: nickname.to_owned() }
    }
}

/// Users by numeric id.
pub type UserMap = im::OrdMap<u64, User>;

/// The users that the map `m` holds, by numeric id.
pub uninterp spec fn users_in(m: UserMap) -> Map<u64, User>;

/// The ids that the set `s` holds.
pub uninterp spec fn ids_in(s: im::OrdSet<u64>) -> Set<u64>;

/// Relies on im's `OrdMap::new`: an empty map.
#[verifier::external_body]
fn map_new() -> (r: UserMap)
    ensures
        users_in(r).dom().is_empty(),
{
    im::OrdMap::new()
}

/// Relies on im's `OrdMap::insert`: `k` now maps to `v`, the rest is kept.
#[verifier::external_body]
fn map_insert(m: &mut UserMap, k: u64, v: User)
    ensures
        users_in(*final(m)) == users_in(*old(m)).insert(k, v),
{
    m.insert(k, v);
}

/// Relies on im's `OrdMap::get`, with the derived `Clone` of `User` (a
/// copy of the nickname): what `k` maps to, if anything.
#[verifier::external_body]
fn map_get(m: &UserMap, k: u64) -> (r: Option<User>)
    ensures
        users_in(*m).contains_key(k) ==> r == Some(users_in(*m)[k]),
        !users_in(*m).contains_key(k) ==> r is None,
{
    m.get(&k).cloned()
}

/// Relies on im's `OrdMap::iter`: every entry of the map, each once.
#[verifier::external_body]
fn map_entries(m: &UserMap) -> (r: Vec<(u64, User)>)
    ensures
        forall|i: int|
            0 <= i < r@.len() ==> users_in(*m).contains_key((#[trigger] r@[i]).0) && users_in(
                *m,
            )[r@[i].0] == r@[i].1,
        forall|k: u64| users_in(*m).contains_key(k) ==> exists|i: int| 0 <= i < r@.len() && (#[trigger] r@[i]).0 == k,
{
    m.iter().map(|(k, v)| (*k, v.clone())).collect()
}

/// Relies on im's `OrdSet::new`: an empty set.
#[verifier::external_body]
fn set_new() -> (r: im::OrdSet<u64>)
    ensures
        ids_in(r) == Set::<u64>::empty(),
{
    im::OrdSet::new()
}

/// Relies on im's `OrdSet::insert`: `a` is now in the set, with the rest.
#[verifier::external_body]
fn set_insert(s: &mut im::OrdSet<u64>, a: u64)
    ensures
        ids_in(*final(s)) == ids_in(*old(s)).insert(a),
{
    s.insert(a);
}

/// Whether `p` stands in `h` from position `i`.
pub open spec fn occurs_at(h: Seq<u8>, p: Seq<u8>, i: int) -> bool {
    0 <= i && i + p.len() <= h.len() && h.subrange(i, i + p.len()) == p
}

/// Whether `p` stands somewhere in `h`.
pub open spec fn has_infix(h: Seq<u8>, p: Seq<u8>) -> bool {
    exists|i: int| occurs_at(h, p, i)
}

fn matches_at(h: &[u8], p: &[u8], i: usize) -> (r: bool)
    requires
        i + p@.len() <= h@.len(),
    ensures
        r == occurs_at(h@, p@, i as int),
{
    let hl = h.len();
    let mut j: usize = 0;
    while j < p.len()
        invariant
            h@.len() == hl,
            i + p@.len() <= h@.len(),
            j <= p@.len(),
            forall|k: int| 0 <= k < j ==> h@[i + k] == p@[k],
        decreases p@.len() - j,
    {
        if h[i + j] != p[j] {
            proof {
                assert(h@.subrange(i as int, i + p@.len())[j as int] != p@[j as int]);
            }
            return false;
        }
        j = j + 1;
    }
    proof {
        assert(h@.subrange(i as int, i + p@.len()) =~= p@);
    }
    true
}

/// Whether the bytes `p` stand somewhere in the bytes `h`.
pub fn contains_bytes(h: &[u8], p: &[u8]) -> (r: bool)
    ensures
        r == has_infix(h@, p@),
{
    if p.len() > h.len() {
        return false;
    }
    let last = h.len() - p.len();
    let mut i: usize = 0;
    while i <= last
        invariant
            last + p@.len() == h@.len(),
            i <= last + 1,
            forall|k: int| 0 <= k < i ==> !occurs_at(h@, p@, k),
        decreases last + 1 - i,
    {
        if matches_at(h, p, i) {
            return true;
        }
        if i == last {
            proof {
                assert forall|k: int| !occurs_at(h@, p@, k) by {
                    if 0 <= k <= i {
                    }
                }
            }
            return false;
        }
        i = i + 1;
    }
    proof {
        assert forall|k: int| !occurs_at(h@, p@, k) by {
            if 0 <= k < i {
            }
        }
    }
    false
}

/// Users, looked up by id and searched by nickname.
pub trait UserRepository {
    spec fn users(&self) -> Map<u64, User>;

    /// The user with id `id`.
    fn get_user(&self, id: u64) -> (r: Option<User>)
        ensures
            self.users().contains_key(id) ==> r == Some(self.users()[id]),
            !self.users().contains_key(id) ==> r is None,
    ;

    /// The users whose ids are among `ids`.
    fn get_many(&self, ids: Vec<u64>) -> (r: UserMap)
        ensures
            users_in(r) == Map::new(
                |k: u64| ids@.contains(k) && self.users().contains_key(k),
                |k: u64| self.users()[k],
            ),
    ;

    /// The ids of the users whose nickname holds `nickname`.
    fn ids_by_nickname(&self, nickname: &str) -> (r: im::OrdSet<u64>)
        ensures
            ids_in(r) == Set::new(
                |k: u64|
                    self.users().contains_key(k) && has_infix(
                        encode_utf8(self.users()[k].nickname@),
                        nickname.spec_bytes(),
                    ),
            ),
    ;
}

impl UserRepository for UserMap {
    open spec fn users(&self) -> Map<u64, User> {
        users_in(*self)
    }

    fn get_user(&self, id: u64) -> (r: Option<User>) {
        map_get(self, id)
    }

    fn get_many(&self, ids: Vec<u64>) -> (r: UserMap) {
        let ghost m = users_in(*self);
        let mut out = map_new();
        let mut i: usize = 0;
        while i < ids.len()
            invariant
                m == users_in(*self),
                i <= ids@.len(),
                users_in(out) == Map::new(
                    |k: u64| (exists|j: int| 0 <= j < i && ids@[j] == k) && m.contains_key(k),
                    |k: u64| m[k],
                ),
            decreases ids@.len() - i,
        {
            let id = ids[i];
            match map_get(self, id) {
                Some(u) => {
                    map_insert(&mut out, id, u);
                },
                None => {},
            }
            proof {
                assert(ids@[i as int] == id);
                assert(users_in(out) =~= Map::new(
                    |k: u64| (exists|j: int| 0 <= j < i + 1 && ids@[j] == k) && m.contains_key(k),
                    |k: u64| m[k],
                ));
            }
            i = i + 1;
        }
        out
    }

    fn ids_by_nickname(&self, nickname: &str) -> (r: im::OrdSet<u64>) {
        let ghost m = users_in(*self);
        let ghost pat = nickname.spec_bytes();
        let entries = map_entries(self);
        let pb = nickname.as_bytes();
        let mut out = set_new();
        let mut i: usize = 0;
        while i < entries.len()
            invariant
                m == users_in(*self),
                pat == nickname.spec_bytes(),
                pb@ == pat,
                i <= entries@.len(),
                forall|j: int|
                    0 <= j < entries@.len() ==> m.contains_key((#[trigger] entries@[j]).0)
                        && m[entries@[j].0] == entries@[j].1,
                ids_in(out) == Set::new(
                    |k: u64|
                        exists|j: int|
                            0 <= j < i && (#[trigger] entries@[j]).0 == k && has_infix(
                                encode_utf8(entries@[j].1.nickname@),
                                pat,
                            ),
                ),
            decreases entries@.len() - i,
        {
            let (id, ref u) = entries[i];
            let hb = u.nickname.as_str().as_bytes();
            let found = contains_bytes(hb, pb);
            let ghost before = ids_in(out);
            if found {
                set_insert(&mut out, id);
            }
            proof {
                assert(ids_in(out) =~= Set::new(
                    |k: u64|
                        exists|j: int|
                            0 <= j < i + 1 && (#[trigger] entries@[j]).0 == k && has_infix(
                                encode_utf8(entries@[j].1.nickname@),
                                pat,
                            ),
                )) by {
                    assert forall|k: u64| ids_in(out).contains(k) implies exists|j: int|
                        0 <= j < i + 1 && (#[trigger] entries@[j]).0 == k && has_infix(
                            encode_utf8(entries@[j].1.nickname@),
                            pat,
                        ) by {
                        if k == id && found {
                            assert(entries@[i as int].0 == k);
                        }
                    }
                }
            }
            i = i + 1;
        }
        proof {
            assert(ids_in(out) =~= Set::new(
                |k: u64| m.contains_key(k) && has_infix(encode_utf8(m[k].nickname@), pat),
            )) by {
                assert forall|k: u64| m.contains_key(k) && has_infix(encode_utf8(m[k].nickname@), pat)
                    implies ids_in(out).contains(k) by {
                    let j = choose|j: int| 0 <= j < entries@.len() && (#[trigger] entries@[j]).0 == k;
                    assert(entries@[j].0 == k);
                }
            }
        }
        out
    }
}

} // verus!
