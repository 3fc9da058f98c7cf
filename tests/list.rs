use exercises::list::List;

#[test]
fn create() {
    let list = List::<()>::new();
    assert_eq!(list.len(), 0);
}

#[test]
fn push_front() {
    let mut list = List::new();
    assert_eq!(list.len(), 0);

    list.push_front(1);
    list.push_front(2);
    list.push_front(3);
    assert_eq!(list.len(), 3);
}

#[test]
fn pop_front() {
    let mut list = List::new();
    assert_eq!(list.len(), 0);
    list.push_front(1);
    list.push_front(2);
    assert_eq!(list.len(), 2);

    assert_eq!(list.pop_front(), Some(2));
    assert_eq!(list.len(), 1);
    assert_eq!(list.pop_front(), Some(1));
    assert_eq!(list.len(), 0);
}

#[test]
fn push_back() {
    let mut list = List::new();
    assert_eq!(list.len(), 0);

    list.push_back(1);
    list.push_back(2);
    list.push_back(3);
    assert_eq!(list.len(), 3);
}

#[test]
fn pop_back() {
    let mut list = List::new();
    assert_eq!(list.len(), 0);
    list.push_back(1);
    list.push_back(2);
    assert_eq!(list.len(), 2);

    assert_eq!(list.pop_back(), Some(2));
    assert_eq!(list.len(), 1);
    assert_eq!(list.pop_back(), Some(1));
    assert_eq!(list.len(), 0);
}

#[test]
fn front() {
    let mut list = List::new();
    assert_eq!(list.len(), 0);
    list.push_front(1);
    list.push_front(2);
    assert_eq!(list.len(), 2);

    assert_eq!(list.front(), Some(&2));

    *list.front_mut() *= 2;
    assert_eq!(list.front(), Some(&4));
}

#[test]
fn back() {
    let mut list = List::new();
    assert_eq!(list.len(), 0);
    list.push_back(1);
    list.push_back(2);
    assert_eq!(list.len(), 2);

    assert_eq!(list.back(), Some(&2));

    *list.back_mut() *= 2;
    assert_eq!(list.back(), Some(&4));
}

#[test]
fn iter_loop() {
    let mut list = List::new();
    assert_eq!(list.len(), 0);
    list.push_back(1);
    list.push_back(2);
    list.push_back(3);
    assert_eq!(list.len(), 3);

    let mut it = list.into_iter();
    while it.next().is_some() {}
    assert_eq!(it.len(), 0);
}

#[test]
fn iter() {
    let mut list = List::new();
    assert_eq!(list.len(), 0);
    list.push_back(1);
    list.push_back(2);
    list.push_back(3);
    assert_eq!(list.len(), 3);

    let mut it = list.into_iter();
    assert_eq!(it.len(), 3);
    assert_eq!(it.next_back(), Some(3));
    assert_eq!(it.next_back(), Some(2));
    assert_eq!(it.next_back(), Some(1));
    assert_eq!(it.next_back(), None);
}

#[test]
fn from() {
    let list = List::from_vec(vec![1, 2, 3, 4]);
    let mut list = list.into_iter();
    assert_eq!(list.next(), Some(1));
    assert_eq!(list.next(), Some(2));
    assert_eq!(list.next(), Some(3));
    assert_eq!(list.next(), Some(4));
    assert_eq!(list.next(), None);
}

#[test]
fn len_counts_pushes_minus_pops() {
    let mut list = List::new();
    list.push_back(1);
    list.push_front(2);
    list.push_back(3);
    assert_eq!(list.pop_back(), Some(3));
    list.push_front(4);
    assert_eq!(list.pop_front(), Some(4));
    assert_eq!(list.pop_front(), Some(2));
    assert_eq!(list.pop_front(), Some(1));
    assert_eq!(list.pop_front(), None);
    assert_eq!(list.pop_back(), None);
    assert_eq!(list.len(), 0);
    assert!(list.is_empty());
}

#[test]
fn back_pushes_pop_in_order() {
    let mut list = List::new();
    list.push_back('a');
    list.push_back('b');
    list.push_back('c');
    assert_eq!(list.pop_front(), Some('a'));
    assert_eq!(list.pop_front(), Some('b'));
    assert_eq!(list.pop_front(), Some('c'));
    assert_eq!(list.pop_front(), None);
}

#[test]
fn front_pushes_pop_reversed() {
    let mut list = List::new();
    list.push_front('a');
    list.push_front('b');
    list.push_front('c');
    assert_eq!(list.pop_front(), Some('c'));
    assert_eq!(list.pop_front(), Some('b'));
    assert_eq!(list.pop_front(), Some('a'));
    assert_eq!(list.pop_front(), None);
}

#[test]
fn drain_from_both_ends_yields_each_once() {
    let mut list = List::new();
    list.push_back(2);
    list.push_front(1);
    list.push_back(3);
    list.push_front(0);
    list.push_back(4);
    let mut it = list.into_iter();
    let mut front = Vec::new();
    let mut back = Vec::new();
    let mut from_front = true;
    loop {
        let got = if from_front { it.next() } else { it.next_back() };
        match got {
            Some(x) => {
                if from_front {
                    front.push(x);
                } else {
                    back.push(x);
                }
            }
            None => break,
        }
        from_front = !from_front;
    }
    assert_eq!(front, vec![0, 1, 2]);
    assert_eq!(back, vec![4, 3]);
    assert_eq!(front.len() + back.len(), 5);
    assert_eq!(it.next(), None);
    assert_eq!(it.next_back(), None);
}

#[test]
fn front_and_back_of_empty_are_absent() {
    let list = List::<u32>::new();
    assert_eq!(list.front(), None);
    assert_eq!(list.back(), None);
}

#[test]
fn written_front_and_back_are_popped() {
    let mut list = List::from_vec(vec![1, 2, 3]);
    *list.front_mut() = 10;
    *list.back_mut() = 30;
    assert_eq!(list.pop_front(), Some(10));
    assert_eq!(list.pop_back(), Some(30));
    assert_eq!(list.pop_back(), Some(2));
}

#[test]
fn from_drains_both_ways() {
    let mut it = List::from_vec(vec![1, 2, 3, 4]).into_iter();
    let mut got = Vec::new();
    while let Some(x) = it.next_back() {
        got.push(x);
    }
    assert_eq!(got, vec![4, 3, 2, 1]);
}

#[test]
fn large_list_tears_down() {
    let mut list = List::new();
    for i in 0..200_000u32 {
        list.push_back(i);
    }
    assert_eq!(list.len(), 200_000);
    drop(list);
}

#[test]
fn freed_slots_are_reused() {
    let mut list = List::new();
    for round in 0..100u32 {
        list.push_back(round);
        list.push_front(round + 1000);
        assert_eq!(list.pop_back(), Some(round));
    }
    assert_eq!(list.len(), 100);
    assert_eq!(list.back(), Some(&1000));
    assert_eq!(list.front(), Some(&1099));
}
