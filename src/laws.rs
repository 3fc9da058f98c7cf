use vstd::prelude::*;

verus! {

/// One call on a list, as its contract describes it.
pub enum Op<T> {
    PushFront(T),
    PushBack(T),
    PopFront,
    PopBack,
}

/// The elements after `op`, by the contracts of `List`.
pub open spec fn step<T>(s: Seq<T>, op: Op<T>) -> Seq<T> {
    match op {
        Op::PushFront(x) => seq![x].add(s),
        Op::PushBack(x) => s.push(x),
        Op::PopFront => if s.len() == 0 { s } else { s.drop_first() },
        Op::PopBack => if s.len() == 0 { s } else { s.drop_last() },
    }
}

/// The elements after the calls `ops`, in order, starting from `s`.
pub open spec fn run<T>(s: Seq<T>, ops: Seq<Op<T>>) -> Seq<T>
    decreases ops.len(),
{
    if ops.len() == 0 {
        s
    } else {
        run(step(s, ops[0]), ops.drop_first())
    }
}

/// How many of the calls `ops` are pushes.
pub open spec fn pushes<T>(ops: Seq<Op<T>>) -> nat
    decreases ops.len(),
{
    if ops.len() == 0 {
        0
    } else {
        (if ops[0] is PushFront || ops[0] is PushBack { 1nat } else { 0nat }) + pushes(ops.drop_first())
    }
}

/// How many elements the pops among `ops` hand out, starting from `s`.
pub open spec fn popped<T>(s: Seq<T>, ops: Seq<Op<T>>) -> nat
    decreases ops.len(),
{
    if ops.len() == 0 {
        0
    } else {
        (if (ops[0] is PopFront || ops[0] is PopBack) && s.len() > 0 { 1nat } else { 0nat })
            + popped(step(s, ops[0]), ops.drop_first())
    }
}

/// Starting from an empty list, the length after any calls is the number of
/// elements pushed minus the number popped.
pub proof fn lemma_len_counts<T>(ops: Seq<Op<T>>)
    ensures
        run(Seq::<T>::empty(), ops).len() == pushes(ops) - popped(Seq::<T>::empty(), ops),
{
    lemma_len_counts_from(Seq::<T>::empty(), ops);
}

/// From any start, the length after the calls plus what they popped is the
/// start's length plus what they pushed.
pub proof fn lemma_len_counts_from<T>(s: Seq<T>, ops: Seq<Op<T>>)
    ensures
        run(s, ops).len() + popped(s, ops) == s.len() + pushes(ops),
    decreases ops.len(),
{
    if ops.len() > 0 {
        lemma_len_counts_from(step(s, ops[0]), ops.drop_first());
    }
}

/// Pushing `a`, `b`, `c` at the back of an empty list and popping at the
/// front gives them back in that order, then nothing.
pub proof fn lemma_back_then_front_is_fifo<T>(a: T, b: T, c: T)
    ensures
        ({
            let s = Seq::<T>::empty().push(a).push(b).push(c);
            &&& s[0] == a
            &&& s.drop_first()[0] == b
            &&& s.drop_first().drop_first()[0] == c
            &&& s.drop_first().drop_first().drop_first().len() == 0
        }),
{
}

/// Pushing `a`, `b`, `c` at the front of an empty list and popping at the
/// front gives them back in reverse order, then nothing.
pub proof fn lemma_front_then_front_is_lifo<T>(a: T, b: T, c: T)
    ensures
        ({
            let s = seq![c].add(seq![b].add(seq![a].add(Seq::<T>::empty())));
            &&& s[0] == c
            &&& s.drop_first()[0] == b
            &&& s.drop_first().drop_first()[0] == a
            &&& s.drop_first().drop_first().drop_first().len() == 0
        }),
{
}

/// Drains `s` from both ends, taking from the front where `ends` holds
/// `true` and from the back elsewhere: what the front yielded, what the back
/// yielded (in the order yielded), and what is left.
pub open spec fn drain<T>(s: Seq<T>, ends: Seq<bool>) -> (Seq<T>, Seq<T>, Seq<T>)
    decreases ends.len(),
{
    if ends.len() == 0 || s.len() == 0 {
        (Seq::empty(), Seq::empty(), s)
    } else if ends[0] {
        let (f, b, r) = drain(s.drop_first(), ends.drop_first());
        (seq![s[0]].add(f), b, r)
    } else {
        let (f, b, r) = drain(s.drop_last(), ends.drop_first());
        (f, seq![s.last()].add(b), r)
    }
}

/// Draining from both ends in any interleaving yields each element exactly
/// once: the front's yield, then what is left, then the back's yield in
/// reverse, is the list; and once there have been as many draws as
/// elements, nothing is left and the two yields hold as many elements as the
/// list did.
pub proof fn lemma_drain_both_ends<T>(s: Seq<T>, ends: Seq<bool>)
    ensures
        ({
            let (f, b, r) = drain(s, ends);
            &&& f + r + b.reverse() == s
            &&& ends.len() >= s.len() ==> r.len() == 0 && f.len() + b.len() == s.len()
        }),
    decreases ends.len(),
{
    if ends.len() == 0 || s.len() == 0 {
        assert(Seq::<T>::empty() + s + Seq::<T>::empty().reverse() =~= s);
    } else if ends[0] {
        lemma_drain_both_ends(s.drop_first(), ends.drop_first());
        let (f, b, r) = drain(s.drop_first(), ends.drop_first());
        assert(seq![s[0]].add(f) + r + b.reverse() =~= seq![s[0]].add(f + r + b.reverse()));
        assert(seq![s[0]].add(s.drop_first()) =~= s);
    } else {
        lemma_drain_both_ends(s.drop_last(), ends.drop_first());
        let (f, b, r) = drain(s.drop_last(), ends.drop_first());
        assert(seq![s.last()].add(b).reverse() =~= b.reverse().push(s.last()));
        assert(f + r + b.reverse().push(s.last()) =~= (f + r + b.reverse()).push(s.last()));
        assert(s.drop_last().push(s.last()) =~= s);
    }
}


/// A value written through `front_mut` is what the next `pop_front` hands
/// out, and the rest of the list is untouched; the same holds at the back.
pub proof fn lemma_write_then_pop<T>(s: Seq<T>, v: T)
    requires
        s.len() > 0,
    ensures
        s.update(0, v)[0] == v,
        s.update(0, v).drop_first() == s.drop_first(),
        s.update(s.len() - 1, v).last() == v,
        s.update(s.len() - 1, v).drop_last() == s.drop_last(),
{
    assert(s.update(0, v).drop_first() =~= s.drop_first());
    assert(s.update(s.len() - 1, v).drop_last() =~= s.drop_last());
}

} // verus!
