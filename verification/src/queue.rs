//! A singly-linked FIFO queue.
//!
//! Elements enter at the back and leave at the front. The chain is an
//! owning pointer chain from the head; appending walks the chain to its
//! last link and hangs the new node there, so no aliased back-reference to
//! the tail is ever held.

use vstd::prelude::*;

verus! {

struct Node<T> {
    elem: T,
    next: Option<Box<Node<T>>>,
}

/// The elements reachable from a link, nearest first.
spec fn link_view<T>(l: Option<Box<Node<T>>>) -> Seq<T>
    decreases l,
{
    match l {
        None => Seq::empty(),
        Some(n) => seq![n.elem] + link_view(n.next),
    }
}

/// Hang a new node holding `elem` on the last link of the chain.
fn push_link<T>(link: &mut Option<Box<Node<T>>>, elem: T)
    ensures
        link_view(*final(link)) == link_view(*old(link)).push(elem),
    decreases *old(link),
{
    match link {
        None => {
            *link = Some(Box::new(Node { elem, next: None }));
            proof {
                assert(link_view(*final(link)) =~= link_view(*old(link)).push(elem));
            }
        }
        Some(node) => {
            push_link(&mut node.next, elem);
            proof {
                assert(link_view(*final(link)) =~= link_view(*old(link)).push(elem));
            }
        }
    }
}

/// A FIFO queue over an owning singly-linked chain.
pub struct List<T> {
    head: Option<Box<Node<T>>>,
}

/// A consuming iterator over a queue, yielding from the front.
pub struct IntoIter<T>(List<T>);

/// A borrowing iterator over a queue, yielding references from the front.
pub struct Iter<'a, T> {
    next: Option<&'a Node<T>>,
}

/// A mutably borrowing iterator over a queue, yielding exclusive
/// references from the front.
pub struct IterMut<'a, T> {
    next: Option<&'a mut Node<T>>,
}

impl<T> List<T> {
    /// The elements of the queue, front first.
    pub closed spec fn view(self) -> Seq<T> {
        link_view(self.head)
    }

    /// An empty queue.
    pub fn new() -> (l: List<T>)
        ensures
            l@ == Seq::<T>::empty(),
    {
        List { head: None }
    }

    /// Append `elem` at the back of the queue.
    pub fn push(&mut self, elem: T)
        ensures
            final(self)@ == old(self)@.push(elem),
    {
        push_link(&mut self.head, elem);
    }

    /// Remove and return the front element, or report absence on an empty
    /// queue.
    pub fn pop(&mut self) -> (r: Option<T>)
        ensures
            match r {
                None => old(self)@.len() == 0 && final(self)@ == old(self)@,
                Some(e) => old(self)@.len() > 0 && e == old(self)@[0] && final(self)@ == old(
                    self,
                )@.skip(1),
            },
    {
        match self.head.take() {
            None => None,
            Some(node) => {
                let node = *node;
                self.head = node.next;
                proof {
                    assert(self@ =~= old(self)@.skip(1));
                }
                Some(node.elem)
            }
        }
    }

    /// A read-only view of the front element, absent on an empty queue.
    pub fn peek(&self) -> (r: Option<&T>)
        ensures
            self@.len() == 0 ==> r is None,
            self@.len() > 0 ==> (r matches Some(v) && *v == self@[0]),
    {
        match &self.head {
            Some(node) => Some(&node.elem),
            None => None,
        }
    }

    /// An exclusive view of the front element, absent on an empty queue.
    pub fn peek_mut(&mut self) -> (r: Option<&mut T>)
        ensures
            old(self)@.len() == 0 ==> (r is None && final(self)@ == old(self)@),
            old(self)@.len() > 0 ==> (r matches Some(v) && *v == old(self)@[0] && final(self)@
                =~= old(self)@.update(0, *final(v))),
    {
        match &mut self.head {
            Some(node) => Some(&mut node.elem),
            None => None,
        }
    }


    /// Release every element, top first: repeated [`List::pop`] until the
    /// queue reports empty, so the chain is torn down by an iterative loop
    /// rather than a recursive walk of the links.
    pub fn clear(&mut self)
        ensures
            final(self)@ == Seq::<T>::empty(),
    {
        loop
            ensures
                self@.len() == 0,
            decreases self@.len(),
        {
            match self.pop() {
                Some(_) => {}
                None => {
                    break ;
                }
            }
        }
        proof {
            assert(self@ =~= Seq::<T>::empty());
        }
    }

    /// Convert the queue into a consuming iterator over its elements.
    pub fn into_iter(self) -> (it: IntoIter<T>)
        ensures
            it@ == self@,
    {
        IntoIter(self)
    }

    /// Borrow the queue for read-only iteration.
    pub fn iter<'a>(&'a self) -> (it: Iter<'a, T>)
        ensures
            it@ == self@,
    {
        Iter {
            next: match &self.head {
                Some(node) => Some(&**node),
                None => None,
            },
        }
    }

    /// Borrow the queue for mutable iteration. The iterator walks the
    /// queue's own nodes, so a write through a yielded reference lands in
    /// the element's place in the queue.
    pub fn iter_mut<'a>(&'a mut self) -> (it: IterMut<'a, T>)
        ensures
            it@ == old(self)@,
    {
        IterMut {
            next: match &mut self.head {
                Some(node) => Some(&mut **node),
                None => None,
            },
        }
    }
}

impl<T> IntoIter<T> {
    /// The elements not yet consumed, front first.
    pub closed spec fn view(self) -> Seq<T> {
        self.0@
    }

    /// Consume and return the next element, or report exhaustion.
    pub fn next(&mut self) -> (r: Option<T>)
        ensures
            match r {
                None => old(self)@.len() == 0 && final(self)@ == old(self)@,
                Some(e) => old(self)@.len() > 0 && e == old(self)@[0] && final(self)@ == old(
                    self,
                )@.skip(1),
            },
    {
        self.0.pop()
    }
}

impl<'a, T> Iter<'a, T> {
    /// The elements not yet visited, nearest first.
    pub closed spec fn view(self) -> Seq<T> {
        match self.next {
            None => Seq::empty(),
            Some(n) => seq![n.elem] + link_view(n.next),
        }
    }

    /// Yield a reference to the next element, or report exhaustion.
    pub fn next(&mut self) -> (r: Option<&'a T>)
        ensures
            old(self)@.len() == 0 ==> (r is None && final(self)@ == old(self)@),
            old(self)@.len() > 0 ==> (r matches Some(v) && *v == old(self)@[0] && final(self)@
                == old(self)@.skip(1)),
    {
        match self.next {
            Some(node) => {
                self.next = match &node.next {
                    Some(nx) => Some(&**nx),
                    None => None,
                };
                proof {
                    assert(self@ =~= old(self)@.skip(1));
                }
                Some(&node.elem)
            }
            None => None,
        }
    }
}

impl<'a, T> IterMut<'a, T> {
    /// The elements not yet visited, nearest first, as they stand now.
    pub closed spec fn view(self) -> Seq<T> {
        match self.next {
            None => Seq::empty(),
            Some(n) => seq![n.elem] + link_view(n.next),
        }
    }

    /// Yield an exclusive reference to the next element, or report
    /// exhaustion. The reference points into the underlying queue, so what
    /// is finally written through it lands in that element's place there.
    pub fn next(&mut self) -> (r: Option<&'a mut T>)
        ensures
            old(self)@.len() == 0 ==> (r is None && final(self)@ == old(self)@),
            old(self)@.len() > 0 ==> (r matches Some(v) && *v == old(self)@[0] && final(self)@
                == old(self)@.skip(1)),
    {
        match self.next.take() {
            Some(node) => {
                let elem_ref = &mut node.elem;
                self.next = match &mut node.next {
                    Some(nx) => Some(&mut **nx),
                    None => None,
                };
                Some(elem_ref)
            }
            None => None,
        }
    }
}

} // verus!
