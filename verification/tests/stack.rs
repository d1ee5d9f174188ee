use linked_lists::stack::List;

#[test]
fn second_basics() {
    let mut list = List::new();

    assert_eq!(list.pop(), None);

    list.push(3);
    list.push(2);
    list.push(1);

    assert_eq!(list.pop(), Some(1));
    assert_eq!(list.pop(), Some(2));

    list.push(4);
    list.push(5);

    assert_eq!(list.pop(), Some(5));
    assert_eq!(list.pop(), Some(4));

    list.pop();

    assert_eq!(list.pop(), None);
}

#[test]
fn second_peek() {
    let mut list = List::new();
    assert_eq!(list.peek(), None);
    assert_eq!(list.peek_mut(), None);

    list.push(3);
    list.push(2);
    list.push(1);

    assert_eq!(list.peek(), Some(&1));
    assert_eq!(list.peek_mut(), Some(&mut 1));
    list.peek_mut().map(|value| *value = 66);
    assert_eq!(list.peek(), Some(&66));
}

#[test]
fn into_iter() {
    let mut list = List::new();
    list.push(3);
    list.push(6);
    list.push(9);

    let mut itr = list.into_iter();
    assert_eq!(itr.next(), Some(9));
    assert_eq!(itr.next(), Some(6));
    assert_eq!(itr.next(), Some(3));
    assert_eq!(itr.next(), None);
}

#[test]
fn iter() {
    let mut list = List::new();
    list.push(3);
    list.push(6);
    list.push(9);

    let mut itr = list.iter();
    assert_eq!(itr.next(), Some(&9));
    assert_eq!(itr.next(), Some(&6));
    assert_eq!(itr.next(), Some(&3));
    assert_eq!(itr.next(), None);
}

#[test]
fn iter_mut() {
    let mut list = List::new();
    list.push(3);
    list.push(6);
    list.push(9);

    let mut itr = list.iter_mut();
    itr.next().map(|node| *node = 4);
    assert_eq!(itr.next(), Some(&mut 6));
    assert_eq!(itr.next(), Some(&mut 3));
    assert_eq!(itr.next(), None);
    assert_eq!(list.peek(), Some(&4));

    let mut itr2 = list.iter_mut();
    itr2.next().map(|node| *node = 9);
    assert_eq!(itr2.next(), Some(&mut 6));
    assert_eq!(itr2.next(), Some(&mut 3));
    assert_eq!(itr2.next(), None);

    assert_eq!(list.peek(), Some(&9));
}

#[test]
fn stack_empty_queries_absent() {
    let mut list: List<i32> = List::new();
    assert_eq!(list.pop(), None);
    assert_eq!(list.peek(), None);
    assert_eq!(list.peek_mut(), None);
    assert_eq!(list.iter().next(), None);
    assert_eq!(list.iter_mut().next(), None);
    assert_eq!(list.into_iter().next(), None);
}

#[test]
fn stack_clear() {
    let mut list = List::new();
    for i in 0..1000 {
        list.push(i);
    }
    list.clear();
    assert_eq!(list.pop(), None);
    assert_eq!(list.peek(), None);
}
