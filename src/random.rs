use vstd::prelude::*;
use crate::chance::random_below;

verus! {

/// Three values, of which each access sees one drawn at random.
#[derive(Debug, Default)]
pub struct Random<T>([T; 3]);

impl<T> From<[T; 3]> for Random<T> {
    fn from(ts: [T; 3]) -> (r: Random<T>)
        ensures
            r.values() == ts@,
    {
        Random(ts)
    }
}

impl<T> vstd::std_specs::convert::FromSpecImpl<[T; 3]> for Random<T> {
    open spec fn obeys_from_spec() -> bool {
        true
    }

    closed spec fn from_spec(ts: [T; 3]) -> Random<T> {
        Random(ts)
    }
}

impl<T> Random<T> {
    /// The three values.
    pub closed spec fn values(&self) -> Seq<T> {
        self.0@
    }

    pub fn new(ts: [T; 3]) -> (r: Random<T>)
        ensures
            r.values() == ts@,
    {
        Random(ts)
    }

    /// One of the three values, drawn at random.
    pub fn random(&self) -> (r: &T)
        ensures
            exists|i: int| 0 <= i < 3 && *r == self.values()[i],
    {
        let i = random_below(3);
        let r = &self.0[i];
        assert(*r == self.values()[i as int]);
        r
    }

}

} // verus!
