use linked_lists::persistent::List;

#[test]
fn prepend() {
    let list = List::new();
    assert_eq!(list.head(), None);

    let list = list.prepend(3).prepend(4).prepend(5);

    assert_eq!(list.head(), Some(&5));
}

#[test]
fn itr() {
    let list = List::new();
    assert_eq!(list.head(), None);

    let list = list.prepend(3).prepend(4).prepend(5);
    assert_eq!(list.head(), Some(&5));

    let mut itr = list.iter();

    assert_eq!(itr.next(), Some(&5));
    assert_eq!(itr.next(), Some(&4));
    assert_eq!(itr.next(), Some(&3));
    assert_eq!(itr.next(), None);
}

#[test]
fn persistent_tail() {
    let empty: List<i32> = List::new();
    assert_eq!(empty.tail().head(), None);

    let list = List::new().prepend(3).prepend(4).prepend(5);
    let tail = list.tail();
    assert_eq!(tail.head(), Some(&4));
    assert_eq!(tail.tail().head(), Some(&3));
    assert_eq!(tail.tail().tail().head(), None);

    // the first list is untouched
    assert_eq!(list.head(), Some(&5));
}

#[test]
fn persistent_shared_tails() {
    let base = List::new().prepend(1);
    let a = base.prepend(2);
    let b = base.prepend(3);

    assert_eq!(a.head(), Some(&2));
    assert_eq!(b.head(), Some(&3));
    assert_eq!(base.head(), Some(&1));

    let mut ia = a.iter();
    assert_eq!(ia.next(), Some(&2));
    assert_eq!(ia.next(), Some(&1));
    assert_eq!(ia.next(), None);

    let mut ib = b.iter();
    assert_eq!(ib.next(), Some(&3));
    assert_eq!(ib.next(), Some(&1));
    assert_eq!(ib.next(), None);
}
