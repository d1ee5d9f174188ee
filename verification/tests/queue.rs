use linked_lists::queue::List;

#[test]
fn push_pop() {
    let mut list = List::new();
    list.push(3);
    list.push(4);
    list.push(5);

    assert_eq!(list.pop(), Some(3));
    assert_eq!(list.pop(), Some(4));
    assert_eq!(list.pop(), Some(5));
    assert_eq!(list.pop(), None);

    list.push(5);
    assert_eq!(list.pop(), Some(5));
    assert_eq!(list.pop(), None);
}

#[test]
fn miri_food() {
    let mut list = List::new();
    list.push(3);
    list.push(4);
    list.push(5);

    assert_eq!(list.peek(), Some(&3));
    list.peek_mut().map(|x| *x = 42);
    assert_eq!(list.peek(), Some(&42));

    let mut iter_mut = list.iter_mut();
    iter_mut.next();
    iter_mut.next().map(|x| *x = 52);
    assert_eq!(list.pop(), Some(42));
    assert_eq!(list.pop(), Some(52));
    assert_eq!(list.pop(), Some(5));
    assert_eq!(list.pop(), None);
}

#[test]
fn queue_empty_queries_absent() {
    let mut list: List<i32> = List::new();
    assert_eq!(list.pop(), None);
    assert_eq!(list.peek(), None);
    assert_eq!(list.peek_mut(), None);
    assert_eq!(list.iter().next(), None);
    assert_eq!(list.iter_mut().next(), None);
    assert_eq!(list.into_iter().next(), None);
}

#[test]
fn queue_iteration() {
    let mut list = List::new();
    list.push(1);
    list.push(2);
    list.push(3);

    let mut itr = list.iter();
    assert_eq!(itr.next(), Some(&1));
    assert_eq!(itr.next(), Some(&2));
    assert_eq!(itr.next(), Some(&3));
    assert_eq!(itr.next(), None);

    let mut consuming = list.into_iter();
    assert_eq!(consuming.next(), Some(1));
    assert_eq!(consuming.next(), Some(2));
    assert_eq!(consuming.next(), Some(3));
    assert_eq!(consuming.next(), None);
}

#[test]
fn queue_clear() {
    let mut list = List::new();
    for i in 0..1000 {
        list.push(i);
    }
    list.clear();
    assert_eq!(list.pop(), None);
    assert_eq!(list.peek(), None);
}
