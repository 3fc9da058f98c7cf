use vstd::prelude::*;

verus! {

/// Three values in a ring.
#[derive(Clone, Copy, Debug, PartialEq, Eq, Default)]
pub struct Trinity<T> {
    pub a: T,
    pub b: T,
    pub c: T,
}

/// `t` turned one step: each value moves on to the next place.
pub open spec fn rotated<T>(t: Trinity<T>) -> Trinity<T> {
    Trinity { a: t.c, b: t.a, c: t.b }
}

impl<T> Trinity<T> {
    /// Turns the ring one step: `(a, b, c)` becomes `(c, a, b)`.
    pub fn rotate(&mut self)
        ensures
            *final(self) == rotated(*old(self)),
    {
        std::mem::swap(&mut self.a, &mut self.b);
        std::mem::swap(&mut self.a, &mut self.c);
    }
}

/// Whether some rotation of `t`, of none to two steps, is `e`.
pub open spec fn solvable(t: Trinity<i32>, e: Trinity<i32>) -> bool {
    t == e || rotated(t) == e || rotated(rotated(t)) == e
}

/// The members of `s` that no rotation turns into `e`, in order.
pub open spec fn unsolvable(s: Seq<Trinity<i32>>, e: Trinity<i32>) -> Seq<Trinity<i32>>
    decreases s.len(),
{
    if s.len() == 0 {
        Seq::empty()
    } else if solvable(s.last(), e) {
        unsolvable(s.drop_last(), e)
    } else {
        unsolvable(s.drop_last(), e).push(s.last())
    }
}

/// Rings to be turned until each matches `expected`.
#[derive(Debug)]
pub struct Solver {
    pub expected: Trinity<i32>,
    pub unsolved: Vec<Trinity<i32>>,
}

fn same(x: &Trinity<i32>, y: &Trinity<i32>) -> (r: bool)
    ensures
        r == (*x == *y),
{
    x.a == y.a && x.b == y.b && x.c == y.c
}

impl Solver {
    /// Drops each ring that some rotation turns into `expected`; the others
    /// stay, unturned and in order.
    pub fn resolve(&mut self)
        ensures
            final(self).expected == old(self).expected,
            final(self).unsolved@ == unsolvable(old(self).unsolved@, old(self).expected),
    {
        let mut items: Vec<Trinity<i32>> = Vec::new();
        std::mem::swap(&mut items, &mut self.unsolved);
        let ghost all = items@;
        let mut i: usize = 0;
        while i < items.len()
            invariant
                items@ == all,
                i <= all.len(),
                self.expected == old(self).expected,
                all == old(self).unsolved@,
                self.unsolved@ == unsolvable(all.subrange(0, i as int), self.expected),
            decreases all.len() - i,
        {
            let mut t = items[i];
            let t0 = t;
            let mut found = false;
            let mut k: usize = 0;
            while k < 3 && !found
                invariant
                    k <= 3,
                    found ==> solvable(t0, self.expected),
                    !found ==> t == (if k == 0 {
                        t0
                    } else if k == 1 {
                        rotated(t0)
                    } else if k == 2 {
                        rotated(rotated(t0))
                    } else {
                        rotated(rotated(rotated(t0)))
                    }),
                    !found ==> t0 != self.expected || k == 0,
                    !found && k >= 2 ==> rotated(t0) != self.expected,
                    !found && k >= 3 ==> rotated(rotated(t0)) != self.expected,
                decreases 3 - k,
            {
                if same(&t, &self.expected) {
                    found = true;
                } else {
                    t.rotate();
                }
                k = k + 1;
            }
            proof {
                if !found {
                    assert(t == t0);
                    assert(!solvable(t0, self.expected));
                }
            }
            proof {
                assert(all.subrange(0, i + 1).drop_last() =~= all.subrange(0, i as int));
            }
            if !found {
                self.unsolved.push(t);
            }
            i = i + 1;
        }
        proof {
            assert(all.subrange(0, all.len() as int) =~= all);
        }
    }
}

} // verus!
