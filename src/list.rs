use vstd::prelude::*;
use vstd::pervasive::VecAdditionalExecFns;

verus! {

/// Links of one arena slot: the slots of its neighbours in the chain.
#[derive(Clone, Copy)]
struct Node {
    prev: Option<usize>,
    next: Option<usize>,
}

/// A doubly-linked deque whose nodes live in an arena and refer to each
/// other by slot index. Slots freed by a pop are kept on a free list and
/// reused by later pushes.
pub struct List<T> {
    values: Vec<Option<T>>,
    links: Vec<Node>,
    free: Vec<usize>,
    head: Option<usize>,
    tail: Option<usize>,
    len: usize,
    /// Slot of each element, from front to back.
    order: Ghost<Seq<usize>>,
}

impl<T> List<T> {
    pub closed spec fn wf(&self) -> bool {
        let o = self.order@;
        &&& self.values@.len() == self.links@.len()
        &&& o.len() == self.len as nat
        &&& forall|k: int| 0 <= k < o.len() ==> (o[k] as int) < self.values@.len()
        &&& forall|k1: int, k2: int|
            0 <= k1 < o.len() && 0 <= k2 < o.len() && k1 != k2 ==> o[k1] != o[k2]
        &&& forall|k: int| 0 <= k < o.len() ==> (#[trigger] self.values@[o[k] as int]).is_some()
        &&& forall|k: int|
            0 <= k < o.len() ==> (#[trigger] self.links@[o[k] as int]).prev == (if k == 0 {
                None
            } else {
                Some(o[k - 1])
            })
        &&& forall|k: int|
            0 <= k < o.len() ==> (#[trigger] self.links@[o[k] as int]).next == (if k + 1 == o.len() {
                None
            } else {
                Some(o[k + 1])
            })
        &&& self.head == (if o.len() == 0 { None } else { Some(o[0]) })
        &&& self.tail == (if o.len() == 0 { None } else { Some(o[o.len() - 1]) })
        &&& forall|j: int| 0 <= j < self.free@.len() ==> (self.free@[j] as int) < self.values@.len()
        &&& forall|j1: int, j2: int|
            0 <= j1 < self.free@.len() && 0 <= j2 < self.free@.len() && j1 != j2 ==> self.free@[j1]
                != self.free@[j2]
        &&& forall|j: int|
            0 <= j < self.free@.len() ==> (#[trigger] self.values@[self.free@[j] as int]).is_none()
    }

    /// The elements, from front to back.
    pub closed spec fn view(&self) -> Seq<T> {
        Seq::new(self.order@.len(), |k: int| self.values@[self.order@[k] as int].unwrap())
    }

    /// An empty list.
    pub fn new() -> (r: Self)
        ensures
            r.wf(),
            r@ == Seq::<T>::empty(),
    {
        let r = List {
            values: Vec::new(),
            links: Vec::new(),
            free: Vec::new(),
            head: None,
            tail: None,
            len: 0,
            order: Ghost(Seq::empty()),
        };
        assert(r@ =~= Seq::<T>::empty());
        r
    }

    /// Number of elements.
    pub fn len(&self) -> (r: usize)
        requires
            self.wf(),
        ensures
            r == self@.len(),
    {
        self.len
    }

    /// Whether the list holds no element.
    pub fn is_empty(&self) -> (r: bool)
        requires
            self.wf(),
        ensures
            r == (self@.len() == 0),
    {
        self.len == 0
    }

    /// Puts `x` into a slot that holds no element: a freed one if there is
    /// one, else a new one at the end of the arena.
    fn take_slot(&mut self, x: T) -> (idx: usize)
        requires
            old(self).wf(),
        ensures
            final(self).order@ == old(self).order@,
            final(self).head == old(self).head,
            final(self).tail == old(self).tail,
            final(self).len == old(self).len,
            final(self).values@.len() == final(self).links@.len(),
            (idx as int) < final(self).values@.len(),
            final(self).values@[idx as int] == Some(x),
            forall|k: int| 0 <= k < old(self).order@.len() ==> old(self).order@[k] != idx,
            forall|i: int|
                0 <= i < old(self).values@.len() && i != idx ==> final(self).values@[i]
                    == old(self).values@[i],
            forall|i: int| 0 <= i < old(self).links@.len() ==> final(self).links@[i]
                == old(self).links@[i],
            old(self).values@.len() <= final(self).values@.len(),
            forall|j1: int, j2: int|
                0 <= j1 < final(self).free@.len() && 0 <= j2 < final(self).free@.len() && j1 != j2
                    ==> final(self).free@[j1] != final(self).free@[j2],
            forall|j: int|
                0 <= j < final(self).free@.len() ==> (final(self).free@[j] as int)
                    < final(self).values@.len(),
            forall|j: int|
                0 <= j < final(self).free@.len() ==> (#[trigger] final(self).values@[final(self).free@[j] as int]).is_none(),
    {
        proof {
            let o = self.order@;
            assert forall|k: int| 0 <= k < o.len() implies self.values@[o[k] as int].is_some() by {}
        }
        match self.free.pop() {
            Some(i) => {
                proof {
                    assert(self.values@[i as int].is_none());
                    assert forall|j: int| 0 <= j < self.free@.len() implies self.free@[j] != i by {
                        assert(old(self).free@[j] == self.free@[j]);
                        assert(old(self).free@[old(self).free@.len() - 1] == i);
                    }
                }
                self.values.set(i, Some(x));
                i
            },
            None => {
                let i = self.values.len();
                self.values.push(Some(x));
                self.links.push(Node { prev: None, next: None });
                i
            },
        }
    }

    /// Adds `x` at the front.
    pub fn push_front(&mut self, x: T)
        requires
            old(self).wf(),
            old(self)@.len() < usize::MAX,
        ensures
            final(self).wf(),
            final(self)@ == seq![x].add(old(self)@),
    {
        let ghost o = self.order@;
        let idx = self.take_slot(x);
        match self.head {
            Some(h) => {
                let mut l = self.links[h];
                l.prev = Some(idx);
                self.links.set(h, l);
                self.links.set(idx, Node { prev: None, next: Some(h) });
                self.head = Some(idx);
            },
            None => {
                self.links.set(idx, Node { prev: None, next: None });
                self.head = Some(idx);
                self.tail = Some(idx);
            },
        }
        self.len = self.len + 1;
        self.order = Ghost(seq![idx].add(o));
        proof {
            let n = self.order@;
            assert forall|k: int| 0 <= k < n.len() implies (n[k] as int) < self.values@.len() by {
                if k > 0 { assert(n[k] == o[k - 1]); }
            }
            assert forall|k1: int, k2: int|
                0 <= k1 < n.len() && 0 <= k2 < n.len() && k1 != k2 implies n[k1] != n[k2] by {
                if k1 > 0 { assert(n[k1] == o[k1 - 1]); }
                if k2 > 0 { assert(n[k2] == o[k2 - 1]); }
            }
            assert forall|k: int| 0 <= k < n.len() implies (#[trigger] self.values@[n[k] as int]).is_some() by {
                if k > 0 { assert(n[k] == o[k - 1]); assert(old(self).values@[o[k-1] as int].is_some()); }
            }
            assert forall|k: int| 0 <= k < n.len() implies (#[trigger] self.links@[n[k] as int]).prev == (if k == 0 {
                None
            } else {
                Some(n[k - 1])
            }) by {
                if k > 0 { assert(n[k] == o[k - 1]); assert(old(self).links@[o[k-1] as int].prev == (if k - 1 == 0 { None } else { Some(o[k - 2]) })); }
            }
            assert forall|k: int| 0 <= k < n.len() implies (#[trigger] self.links@[n[k] as int]).next == (if k + 1 == n.len() {
                None
            } else {
                Some(n[k + 1])
            }) by {
                if k > 0 { assert(n[k] == o[k - 1]); assert(old(self).links@[o[k-1] as int].next == (if k == o.len() { None } else { Some(o[k]) })); }
            }
            assert forall|j: int| 0 <= j < self.free@.len() implies (#[trigger] self.values@[self.free@[j] as int]).is_none() by {}
            assert(self@ =~= seq![x].add(old(self)@)) by {
                assert forall|k: int| 0 <= k < n.len() implies self@[k] == seq![x].add(old(self)@)[k] by {
                    if k > 0 { assert(n[k] == o[k - 1]); assert(old(self).values@[o[k-1] as int].is_some()); }
                }
            }
        }
    }

    /// Adds `x` at the back.
    pub fn push_back(&mut self, x: T)
        requires
            old(self).wf(),
            old(self)@.len() < usize::MAX,
        ensures
            final(self).wf(),
            final(self)@ == old(self)@.push(x),
    {
        let ghost o = self.order@;
        let idx = self.take_slot(x);
        match self.tail {
            Some(t) => {
                let mut l = self.links[t];
                l.next = Some(idx);
                self.links.set(t, l);
                self.links.set(idx, Node { prev: Some(t), next: None });
                self.tail = Some(idx);
            },
            None => {
                self.links.set(idx, Node { prev: None, next: None });
                self.head = Some(idx);
                self.tail = Some(idx);
            },
        }
        self.len = self.len + 1;
        self.order = Ghost(o.push(idx));
        proof {
            let n = self.order@;
            assert forall|k: int| 0 <= k < n.len() implies (n[k] as int) < self.values@.len() by {
                if k < o.len() { assert(n[k] == o[k]); }
            }
            assert forall|k1: int, k2: int|
                0 <= k1 < n.len() && 0 <= k2 < n.len() && k1 != k2 implies n[k1] != n[k2] by {
                if k1 < o.len() { assert(n[k1] == o[k1]); }
                if k2 < o.len() { assert(n[k2] == o[k2]); }
            }
            assert forall|k: int| 0 <= k < n.len() implies (#[trigger] self.values@[n[k] as int]).is_some() by {
                if k < o.len() { assert(n[k] == o[k]); assert(old(self).values@[o[k] as int].is_some()); }
            }
            assert forall|k: int| 0 <= k < n.len() implies (#[trigger] self.links@[n[k] as int]).prev == (if k == 0 {
                None
            } else {
                Some(n[k - 1])
            }) by {
                if k < o.len() { assert(n[k] == o[k]); assert(old(self).links@[o[k] as int].prev == (if k == 0 { None } else { Some(o[k - 1]) })); }
            }
            assert forall|k: int| 0 <= k < n.len() implies (#[trigger] self.links@[n[k] as int]).next == (if k + 1 == n.len() {
                None
            } else {
                Some(n[k + 1])
            }) by {
                if k < o.len() { assert(n[k] == o[k]); assert(old(self).links@[o[k] as int].next == (if k + 1 == o.len() { None } else { Some(o[k + 1]) })); }
            }
            assert forall|j: int| 0 <= j < self.free@.len() implies (#[trigger] self.values@[self.free@[j] as int]).is_none() by {}
            assert(self@ =~= old(self)@.push(x)) by {
                assert forall|k: int| 0 <= k < n.len() implies self@[k] == old(self)@.push(x)[k] by {
                    if k < o.len() { assert(n[k] == o[k]); assert(old(self).values@[o[k] as int].is_some()); }
                }
            }
        }
    }

    /// Takes the element out of slot `i`, which the chain no longer uses,
    /// and puts the slot on the free list.
    fn release_slot(&mut self, i: usize) -> (r: T)
        requires
            (i as int) < old(self).values@.len(),
            old(self).values@[i as int].is_some(),
            old(self).values@.len() == old(self).links@.len(),
            forall|j: int| 0 <= j < old(self).free@.len() ==> (old(self).free@[j] as int) < old(self).values@.len(),
            forall|j1: int, j2: int|
                0 <= j1 < old(self).free@.len() && 0 <= j2 < old(self).free@.len() && j1 != j2
                    ==> old(self).free@[j1] != old(self).free@[j2],
            forall|j: int|
                0 <= j < old(self).free@.len() ==> (#[trigger] old(self).values@[old(self).free@[j] as int]).is_none(),
        ensures
            r == old(self).values@[i as int].unwrap(),
            final(self).values@ == old(self).values@.update(i as int, None),
            final(self).links@ == old(self).links@.update(i as int, Node { prev: None, next: None }),
            final(self).order@ == old(self).order@,
            final(self).head == old(self).head,
            final(self).tail == old(self).tail,
            final(self).len == old(self).len,
            forall|j: int| 0 <= j < final(self).free@.len() ==> (final(self).free@[j] as int) < final(self).values@.len(),
            forall|j1: int, j2: int|
                0 <= j1 < final(self).free@.len() && 0 <= j2 < final(self).free@.len() && j1 != j2
                    ==> final(self).free@[j1] != final(self).free@[j2],
            forall|j: int|
                0 <= j < final(self).free@.len() ==> (#[trigger] final(self).values@[final(self).free@[j] as int]).is_none(),
    {
        let mut v: Option<T> = None;
        self.values.set_and_swap(i, &mut v);
        self.links.set(i, Node { prev: None, next: None });
        proof {
            assert forall|j: int| 0 <= j < self.free@.len() implies self.free@[j] != i by {
                assert(old(self).values@[self.free@[j] as int].is_none());
            }
        }
        self.free.push(i);
        proof {
            assert forall|j: int| 0 <= j < self.free@.len() implies (#[trigger] self.values@[self.free@[j] as int]).is_none() by {
                if j < self.free@.len() - 1 {
                    assert(old(self).values@[old(self).free@[j] as int].is_none());
                }
            }
        }
        v.unwrap()
    }

    /// Removes and returns the front element; `None` when the list is empty.
    pub fn pop_front(&mut self) -> (r: Option<T>)
        requires
            old(self).wf(),
        ensures
            final(self).wf(),
            old(self)@.len() == 0 ==> r is None && final(self)@ == old(self)@,
            old(self)@.len() > 0 ==> r == Some(old(self)@[0]) && final(self)@ == old(self)@.drop_first(),
    {
        let ghost o = self.order@;
        match self.head {
            None => None,
            Some(h) => {
                proof {
                    assert(self.values@[o[0] as int].is_some());
                    assert(self.links@[o[0] as int].next == (if 1 == o.len() { None } else { Some(o[1]) }));
                }
                let l = self.links[h];
                match l.next {
                    Some(n2) => {
                        let mut l2 = self.links[n2];
                        l2.prev = None;
                        self.links.set(n2, l2);
                        self.head = Some(n2);
                    },
                    None => {
                        self.head = None;
                        self.tail = None;
                    },
                }
                let x = self.release_slot(h);
                self.len = self.len - 1;
                self.order = Ghost(o.drop_first());
                proof {
                    let n = self.order@;
                    assert forall|k: int| 0 <= k < n.len() implies (n[k] as int) < self.values@.len() by {
                        assert(n[k] == o[k + 1]);
                    }
                    assert forall|k1: int, k2: int|
                        0 <= k1 < n.len() && 0 <= k2 < n.len() && k1 != k2 implies n[k1] != n[k2] by {
                        assert(n[k1] == o[k1 + 1]);
                        assert(n[k2] == o[k2 + 1]);
                    }
                    assert forall|k: int| 0 <= k < n.len() implies (#[trigger] self.values@[n[k] as int]).is_some() by {
                        assert(n[k] == o[k + 1]);
                        assert(old(self).values@[o[k + 1] as int].is_some());
                    }
                    assert forall|k: int| 0 <= k < n.len() implies (#[trigger] self.links@[n[k] as int]).prev == (if k == 0 {
                        None
                    } else {
                        Some(n[k - 1])
                    }) by {
                        assert(n[k] == o[k + 1]);
                        assert(old(self).links@[o[k + 1] as int].prev == Some(o[k]));
                    }
                    assert forall|k: int| 0 <= k < n.len() implies (#[trigger] self.links@[n[k] as int]).next == (if k + 1 == n.len() {
                        None
                    } else {
                        Some(n[k + 1])
                    }) by {
                        assert(n[k] == o[k + 1]);
                        assert(old(self).links@[o[k + 1] as int].next == (if k + 2 == o.len() { None } else { Some(o[k + 2]) }));
                    }
                    assert(self@ =~= old(self)@.drop_first()) by {
                        assert forall|k: int| 0 <= k < n.len() implies self@[k] == old(self)@.drop_first()[k] by {
                            assert(n[k] == o[k + 1]);
                            assert(old(self).values@[o[k + 1] as int].is_some());
                        }
                    }
                }
                Some(x)
            },
        }
    }

    /// Removes and returns the back element; `None` when the list is empty.
    pub fn pop_back(&mut self) -> (r: Option<T>)
        requires
            old(self).wf(),
        ensures
            final(self).wf(),
            old(self)@.len() == 0 ==> r is None && final(self)@ == old(self)@,
            old(self)@.len() > 0 ==> r == Some(old(self)@.last()) && final(self)@ == old(self)@.drop_last(),
    {
        let ghost o = self.order@;
        match self.tail {
            None => None,
            Some(t) => {
                let ghost last = o.len() - 1;
                proof {
                    assert(self.values@[o[last] as int].is_some());
                    assert(self.links@[o[last] as int].prev == (if last == 0 { None } else { Some(o[last - 1]) }));
                }
                let l = self.links[t];
                match l.prev {
                    Some(p) => {
                        let mut l2 = self.links[p];
                        l2.next = None;
                        self.links.set(p, l2);
                        self.tail = Some(p);
                    },
                    None => {
                        self.head = None;
                        self.tail = None;
                    },
                }
                let x = self.release_slot(t);
                self.len = self.len - 1;
                self.order = Ghost(o.drop_last());
                proof {
                    let n = self.order@;
                    assert forall|k: int| 0 <= k < n.len() implies (n[k] as int) < self.values@.len() by {
                        assert(n[k] == o[k]);
                    }
                    assert forall|k1: int, k2: int|
                        0 <= k1 < n.len() && 0 <= k2 < n.len() && k1 != k2 implies n[k1] != n[k2] by {
                        assert(n[k1] == o[k1]);
                        assert(n[k2] == o[k2]);
                    }
                    assert forall|k: int| 0 <= k < n.len() implies (#[trigger] self.values@[n[k] as int]).is_some() by {
                        assert(n[k] == o[k]);
                        assert(old(self).values@[o[k] as int].is_some());
                    }
                    assert forall|k: int| 0 <= k < n.len() implies (#[trigger] self.links@[n[k] as int]).prev == (if k == 0 {
                        None
                    } else {
                        Some(n[k - 1])
                    }) by {
                        assert(n[k] == o[k]);
                        assert(old(self).links@[o[k] as int].prev == (if k == 0 { None } else { Some(o[k - 1]) }));
                    }
                    assert forall|k: int| 0 <= k < n.len() implies (#[trigger] self.links@[n[k] as int]).next == (if k + 1 == n.len() {
                        None
                    } else {
                        Some(n[k + 1])
                    }) by {
                        assert(n[k] == o[k]);
                        assert(old(self).links@[o[k] as int].next == Some(o[k + 1]));
                    }
                    assert(self@ =~= old(self)@.drop_last()) by {
                        assert forall|k: int| 0 <= k < n.len() implies self@[k] == old(self)@.drop_last()[k] by {
                            assert(n[k] == o[k]);
                            assert(old(self).values@[o[k] as int].is_some());
                        }
                    }
                }
                Some(x)
            },
        }
    }

    /// The front element; `None` when the list is empty.
    pub fn front(&self) -> (r: Option<&T>)
        requires
            self.wf(),
        ensures
            self@.len() == 0 ==> r is None,
            self@.len() > 0 ==> r == Some(&self@[0]),
    {
        match self.head {
            None => None,
            Some(h) => {
                proof {
                    assert(self.values@[self.order@[0] as int].is_some());
                }
                self.values[h].as_ref()
            },
        }
    }

    /// The back element; `None` when the list is empty.
    pub fn back(&self) -> (r: Option<&T>)
        requires
            self.wf(),
        ensures
            self@.len() == 0 ==> r is None,
            self@.len() > 0 ==> r == Some(&self@.last()),
    {
        match self.tail {
            None => None,
            Some(t) => {
                proof {
                    assert(self.values@[self.order@[self.order@.len() - 1] as int].is_some());
                }
                self.values[t].as_ref()
            },
        }
    }

    /// Exclusive access to the front element of a non-empty list; what is
    /// written through it is the front element afterwards.
    pub fn front_mut(&mut self) -> (r: &mut T)
        requires
            old(self).wf(),
            old(self)@.len() > 0,
        ensures
            *r == old(self)@[0],
            final(self).wf(),
            final(self)@ == old(self)@.update(0, *final(r)),
    {
        let h = self.head.unwrap();
        proof {
            assert(self.values@[self.order@[0] as int].is_some());
        }
        match &mut self.values[h] {
            Some(x) => x,
            None => {
                proof {
                    assert(false);
                }
                loop
                    invariant
                        false,
                    decreases 0int,
                {
                }
            },
        }
    }

    /// Exclusive access to the back element of a non-empty list; what is
    /// written through it is the back element afterwards.
    pub fn back_mut(&mut self) -> (r: &mut T)
        requires
            old(self).wf(),
            old(self)@.len() > 0,
        ensures
            *r == old(self)@.last(),
            final(self).wf(),
            final(self)@ == old(self)@.update(old(self)@.len() - 1, *final(r)),
    {
        let t = self.tail.unwrap();
        proof {
            assert(self.values@[self.order@[self.order@.len() - 1] as int].is_some());
        }
        match &mut self.values[t] {
            Some(x) => x,
            None => {
                proof {
                    assert(false);
                }
                loop
                    invariant
                        false,
                    decreases 0int,
                {
                }
            },
        }
    }

    /// A list of the elements of `v`, in the same order.
    pub fn from_vec(v: Vec<T>) -> (r: Self)
        ensures
            r.wf(),
            r@ == v@,
    {
        let mut v = v;
        let ghost all = v@;
        let n: usize = v.len();
        let mut r = List::new();
        while v.len() > 0
            invariant
                r.wf(),
                all == v@ + r@,
                all.len() == n,
            decreases v.len(),
        {
            let x = v.pop().unwrap();
            proof {
                assert(r@.len() < all.len());
            }
            r.push_front(x);
            proof {
                assert(all =~= v@ + r@);
            }
        }
        assert(r@ =~= all);
        r
    }

    /// Hands the list over to a consuming iterator.
    pub fn into_iter(self) -> (r: IntoIter<T>)
        requires
            self.wf(),
        ensures
            r.wf(),
            r@ == self@,
    {
        IntoIter(self)
    }
}

/// Consuming iteration over a list, from either end.
pub struct IntoIter<T>(List<T>);

impl<T> IntoIter<T> {
    pub closed spec fn wf(&self) -> bool {
        self.0.wf()
    }

    /// The elements not yet handed out, from front to back.
    pub closed spec fn view(&self) -> Seq<T> {
        self.0@
    }

    /// Hands out the front element; `None` once all are handed out.
    pub fn next(&mut self) -> (r: Option<T>)
        requires
            old(self).wf(),
        ensures
            final(self).wf(),
            old(self)@.len() == 0 ==> r is None && final(self)@ == old(self)@,
            old(self)@.len() > 0 ==> r == Some(old(self)@[0]) && final(self)@ == old(self)@.drop_first(),
    {
        self.0.pop_front()
    }

    /// Hands out the back element; `None` once all are handed out.
    pub fn next_back(&mut self) -> (r: Option<T>)
        requires
            old(self).wf(),
        ensures
            final(self).wf(),
            old(self)@.len() == 0 ==> r is None && final(self)@ == old(self)@,
            old(self)@.len() > 0 ==> r == Some(old(self)@.last()) && final(self)@ == old(self)@.drop_last(),
    {
        self.0.pop_back()
    }

    /// Number of elements not yet handed out.
    pub fn len(&self) -> (r: usize)
        requires
            self.wf(),
        ensures
            r == self@.len(),
    {
        self.0.len()
    }
}

} // verus!
