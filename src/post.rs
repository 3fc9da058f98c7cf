use vstd::prelude::*;

verus! {

/// Identifier of a post.
#[derive(Clone, Debug, PartialEq, Eq, Structural)]
pub struct Id(pub u64);

/// Title of a post.
#[derive(Clone, Debug)]
pub struct Title(pub String);

/// Body of a post.
#[derive(Clone, Debug)]
pub struct Body(pub String);

impl From<u64> for Id {
    fn from(v: u64) -> (r: Id)
        ensures
            r.0 == v,
    {
        Id(v)
    }
}

impl vstd::std_specs::convert::FromSpecImpl<u64> for Id {
    open spec fn obeys_from_spec() -> bool {
        true
    }

    open spec fn from_spec(v: u64) -> Id {
        Id(v)
    }
}

} // verus!
