use linked_lists::deque::List;

#[test]
fn fourth_basics() {
    let mut list = List::new();

    assert_eq!(list.pop_front(), None);

    list.push_front(3);
    list.push_front(2);
    list.push_front(1);

    assert_eq!(list.pop_front(), Some(1));
    assert_eq!(list.pop_front(), Some(2));

    list.push_front(4);
    list.push_front(5);

    assert_eq!(list.pop_front(), Some(5));
    assert_eq!(list.pop_front(), Some(4));

    list.pop_front();

    assert_eq!(list.pop_front(), None);
}

#[test]
fn fourth_peek() {
    let mut list = List::new();

    assert!(list.peek_front().is_none());

    list.push_front(3);
    list.push_front(2);
    list.push_front(1);

    assert_eq!(list.peek_front().unwrap(), &1);
}

#[test]
fn push_pop_back() {
    let mut list = List::new();

    assert_eq!(list.pop_back(), None);

    list.push_back(5);
    assert_eq!(list.peek_back().unwrap(), &5);
    list.push_back(6);
    assert_eq!(list.peek_front().unwrap(), &5);
    assert_eq!(list.peek_back().unwrap(), &6);

    assert_eq!(list.peek_back_mut().unwrap(), &mut 6);
    assert_eq!(list.peek_front_mut().unwrap(), &mut 5);
}

#[test]
fn iterators() {
    let mut list = List::new();
    list.push_front(5);
    list.push_front(6);
    list.push_front(7);

    let mut itr = list.into_iter();

    assert_eq!(itr.next(), Some(7));
    assert_eq!(itr.next_back(), Some(5));
    assert_eq!(itr.next_back(), Some(6));
    assert_eq!(itr.next_back(), None);
    assert_eq!(itr.next(), None);
}

#[test]
fn ordering_law_scenario() {
    // fronts pushed: 1, 3; backs pushed: 2, 4. Front to back the deque must
    // read reverse([1, 3]) ++ [2, 4] = [3, 1, 2, 4].
    let mut list = List::new();
    list.push_front(1);
    list.push_back(2);
    list.push_front(3);
    list.push_back(4);

    assert_eq!(list.pop_front(), Some(3));
    assert_eq!(list.pop_front(), Some(1));
    assert_eq!(list.pop_front(), Some(2));
    assert_eq!(list.pop_front(), Some(4));
    assert_eq!(list.pop_front(), None);
}

#[test]
fn push_front_pop_front_round_trip() {
    let mut list = List::new();
    list.push_back(10);
    list.push_back(20);

    list.push_front(99);
    assert_eq!(list.pop_front(), Some(99));

    // the prior deque is restored exactly
    assert_eq!(list.peek_front(), Some(&10));
    assert_eq!(list.peek_back(), Some(&20));
    assert_eq!(list.pop_front(), Some(10));
    assert_eq!(list.pop_front(), Some(20));
    assert_eq!(list.pop_front(), None);
}

#[test]
fn empty_queries_absent() {
    let mut list: List<i32> = List::new();
    assert_eq!(list.pop_front(), None);
    assert_eq!(list.pop_back(), None);
    assert!(list.peek_front().is_none());
    assert!(list.peek_back().is_none());
    assert!(list.peek_front_mut().is_none());
    assert!(list.peek_back_mut().is_none());
}

#[test]
fn mutable_peeks_write_through() {
    let mut list = List::new();
    list.push_back(5);
    list.push_back(6);

    if let Some(v) = list.peek_front_mut() {
        *v = 50;
    }
    if let Some(v) = list.peek_back_mut() {
        *v = 60;
    }
    assert_eq!(list.peek_front(), Some(&50));
    assert_eq!(list.peek_back(), Some(&60));
}

#[test]
fn two_ended_consumption_meets_once() {
    let mut list = List::new();
    list.push_back(1);
    list.push_back(2);
    list.push_back(3);
    list.push_back(4);

    let mut itr = list.into_iter();
    assert_eq!(itr.next(), Some(1));
    assert_eq!(itr.next_back(), Some(4));
    assert_eq!(itr.next(), Some(2));
    assert_eq!(itr.next_back(), Some(3));
    assert_eq!(itr.next(), None);
    assert_eq!(itr.next_back(), None);
}

#[test]
fn teardown_large() {
    let mut list = List::new();
    for i in 0..100_000u32 {
        list.push_back(i);
    }
    list.clear();
    assert_eq!(list.pop_front(), None);
    assert_eq!(list.pop_back(), None);
}
