//! A singly-linked stack with unique ownership of each node.
//!
//! Every node is owned by exactly one link — its predecessor's `next` slot,
//! or the list's `head` — so the chain is a plain owning-pointer chain with
//! no sharing and no backward links. Elements enter and leave at the head.

use vstd::prelude::*;

verus! {

struct Node<T> {
    elem: T,
    next: Option<Box<Node<T>>>,
}

/// The elements reachable from a link, nearest first.
spec fn link_view<T>(l: Option<Box<Node<T>>>) -> Seq<T>
    decreases l,
{
    match l {
        None => Seq::empty(),
        Some(n) => seq![n.elem] + link_view(n.next),
    }
}

/// A LIFO stack over an owning singly-linked chain.
pub struct List<T> {
    head: Option<Box<Node<T>>>,
}

/// A consuming iterator over a stack, yielding from the top down.
pub struct IntoIter<T>(List<T>);

/// A borrowing iterator over a stack, yielding references from the top
/// down.
pub struct Iter<'a, T> {
    next: Option<&'a Node<T>>,
}

/// A mutably borrowing iterator over a stack, yielding exclusive references
/// from the top down.
pub struct IterMut<'a, T> {
    next: Option<&'a mut Node<T>>,
}

impl<T> List<T> {
    /// The elements of the stack, top first.
    pub closed spec fn view(self) -> Seq<T> {
        link_view(self.head)
    }

    /// An empty stack.
    pub fn new() -> (l: List<T>)
        ensures
            l@ == Seq::<T>::empty(),
    {
        List { head: None }
    }

    /// Push `elem` on top of the stack.
    pub fn push(&mut self, elem: T)
        ensures
            final(self)@ == seq![elem] + old(self)@,
    {
        let new_node = Box::new(Node { elem, next: self.head.take() });
        self.head = Some(new_node);
    }

    /// Pop the top element, or report absence on an empty stack.
    pub fn pop(&mut self) -> (r: Option<T>)
        ensures
            match r {
                None => old(self)@.len() == 0 && final(self)@ == old(self)@,
                Some(e) => old(self)@.len() > 0 && e == old(self)@[0] && final(self)@ == old(
                    self,
                )@.skip(1),
            },
    {
        match self.head.take() {
            None => None,
            Some(node) => {
                let node = *node;
                self.head = node.next;
                proof {
                    assert(self@ =~= old(self)@.skip(1));
                }
                Some(node.elem)
            }
        }
    }

    /// A read-only view of the top element, absent on an empty stack.
    pub fn peek(&self) -> (r: Option<&T>)
        ensures
            self@.len() == 0 ==> r is None,
            self@.len() > 0 ==> (r matches Some(v) && *v == self@[0]),
    {
        match &self.head {
            Some(node) => Some(&node.elem),
            None => None,
        }
    }

    /// An exclusive view of the top element, absent on an empty stack.
    pub fn peek_mut(&mut self) -> (r: Option<&mut T>)
        ensures
            old(self)@.len() == 0 ==> (r is None && final(self)@ == old(self)@),
            old(self)@.len() > 0 ==> (r matches Some(v) && *v == old(self)@[0] && final(self)@
                =~= old(self)@.update(0, *final(v))),
    {
        match &mut self.head {
            Some(node) => Some(&mut node.elem),
            None => None,
        }
    }


    /// Release every element, top first: repeated [`List::pop`] until the
    /// stack reports empty, so the chain is torn down by an iterative loop
    /// rather than a recursive walk of the links.
    pub fn clear(&mut self)
        ensures
            final(self)@ == Seq::<T>::empty(),
    {
        loop
            ensures
                self@.len() == 0,
            decreases self@.len(),
        {
            match self.pop() {
                Some(_) => {}
                None => {
                    break ;
                }
            }
        }
        proof {
            assert(self@ =~= Seq::<T>::empty());
        }
    }

    /// Convert the stack into a consuming iterator over its elements.
    pub fn into_iter(self) -> (it: IntoIter<T>)
        ensures
            it@ == self@,
    {
        IntoIter(self)
    }

    /// Borrow the stack for read-only iteration.
    pub fn iter<'a>(&'a self) -> (it: Iter<'a, T>)
        ensures
            it@ == self@,
    {
        Iter {
            next: match &self.head {
                Some(node) => Some(&**node),
                None => None,
            },
        }
    }

    /// Borrow the stack for mutable iteration. The iterator walks the
    /// stack's own nodes, so a write through a yielded reference lands in
    /// the element's place in the stack.
    pub fn iter_mut<'a>(&'a mut self) -> (it: IterMut<'a, T>)
        ensures
            it@ == old(self)@,
    {
        IterMut {
            next: match &mut self.head {
                Some(node) => Some(&mut **node),
                None => None,
            },
        }
    }
}

impl<T> IntoIter<T> {
    /// The elements not yet consumed, top first.
    pub closed spec fn view(self) -> Seq<T> {
        self.0@
    }

    /// Consume and return the next element, or report exhaustion.
    pub fn next(&mut self) -> (r: Option<T>)
        ensures
            match r {
                None => old(self)@.len() == 0 && final(self)@ == old(self)@,
                Some(e) => old(self)@.len() > 0 && e == old(self)@[0] && final(self)@ == old(
                    self,
                )@.skip(1),
            },
    {
        self.0.pop()
    }
}

impl<'a, T> Iter<'a, T> {
    /// The elements not yet visited, nearest first.
    pub closed spec fn view(self) -> Seq<T> {
        match self.next {
            None => Seq::empty(),
            Some(n) => seq![n.elem] + link_view(n.next),
        }
    }

    /// Yield a reference to the next element, or report exhaustion.
    pub fn next(&mut self) -> (r: Option<&'a T>)
        ensures
            old(self)@.len() == 0 ==> (r is None && final(self)@ == old(self)@),
            old(self)@.len() > 0 ==> (r matches Some(v) && *v == old(self)@[0] && final(self)@
                == old(self)@.skip(1)),
    {
        match self.next {
            Some(node) => {
                self.next = match &node.next {
                    Some(nx) => Some(&**nx),
                    None => None,
                };
                proof {
                    assert(self@ =~= old(self)@.skip(1));
                }
                Some(&node.elem)
            }
            None => None,
        }
    }
}

impl<'a, T> IterMut<'a, T> {
    /// The elements not yet visited, nearest first, as they stand now.
    pub closed spec fn view(self) -> Seq<T> {
        match self.next {
            None => Seq::empty(),
            Some(n) => seq![n.elem] + link_view(n.next),
        }
    }

    /// Yield an exclusive reference to the next element, or report
    /// exhaustion. The reference points into the underlying stack, so what
    /// is finally written through it lands in that element's place there.
    pub fn next(&mut self) -> (r: Option<&'a mut T>)
        ensures
            old(self)@.len() == 0 ==> (r is None && final(self)@ == old(self)@),
            old(self)@.len() > 0 ==> (r matches Some(v) && *v == old(self)@[0] && final(self)@
                == old(self)@.skip(1)),
    {
        match self.next.take() {
            Some(node) => {
                let elem_ref = &mut node.elem;
                self.next = match &mut node.next {
                    Some(nx) => Some(&mut **nx),
                    None => None,
                };
                Some(elem_ref)
            }
            None => None,
        }
    }
}

} // verus!
