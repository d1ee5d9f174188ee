//! A persistent singly-linked list with structural sharing.
//!
//! Nodes are immutable and reference-counted: `prepend` never touches the
//! existing chain, it only allocates one new node whose link shares the old
//! list, so any number of lists may share a common tail. A node is released
//! only when the last list sharing it goes away.

use std::sync::Arc;
use vstd::prelude::*;

verus! {

/// A cell of the list: one element and a shared link to the rest.
pub struct Node<T> {
    val: T,
    next: Option<Arc<Node<T>>>,
}

/// The elements reachable from a link, nearest first.
spec fn link_view<T>(l: Option<Arc<Node<T>>>) -> Seq<T>
    decreases l,
{
    match l {
        None => Seq::empty(),
        Some(n) => seq![n.val] + link_view(n.next),
    }
}

/// Take another shared handle on a link's node, if there is one.
///
/// Relies on `Option::<Arc<_>>::clone` (and through it `Arc::clone`): the
/// returned handle refers to the same node, no node is copied or changed.
#[verifier::external_body]
fn share<T>(link: &Option<Arc<Node<T>>>) -> (r: Option<Arc<Node<T>>>)
    ensures
        r == *link,
{
    link.clone()
}

/// An immutable list whose tails may be shared between many lists.
pub struct List<T> {
    head: Option<Arc<Node<T>>>,
}

/// A borrowing iterator over a persistent list, yielding references from
/// the front.
pub struct Iter<'a, T> {
    next: Option<&'a Node<T>>,
}

impl<T> List<T> {
    /// The elements of the list, front first.
    pub closed spec fn view(self) -> Seq<T> {
        link_view(self.head)
    }

    /// An empty list.
    pub fn new() -> (l: List<T>)
        ensures
            l@ == Seq::<T>::empty(),
    {
        List { head: None }
    }

    /// A new list with `elem` in front of all of this list's elements. The
    /// existing nodes are shared with this list, not copied, and are never
    /// mutated.
    pub fn prepend(&self, elem: T) -> (r: List<T>)
        ensures
            r@ == seq![elem] + self@,
    {
        List { head: Some(Arc::new(Node { val: elem, next: share(&self.head) })) }
    }

    /// The list without its first element, sharing the remaining nodes; the
    /// empty list's tail is again empty.
    pub fn tail(&self) -> (r: List<T>)
        ensures
            self@.len() == 0 ==> r@ == Seq::<T>::empty(),
            self@.len() > 0 ==> r@ == self@.skip(1),
    {
        match &self.head {
            None => List { head: None },
            Some(node) => {
                let r = List { head: share(&node.next) };
                proof {
                    assert(self@.skip(1) =~= link_view(node.next));
                }
                r
            }
        }
    }

    /// The first element, absent on the empty list.
    pub fn head(&self) -> (r: Option<&T>)
        ensures
            self@.len() == 0 ==> r is None,
            self@.len() > 0 ==> (r matches Some(v) && *v == self@[0]),
    {
        match &self.head {
            Some(node) => Some(&node.val),
            None => None,
        }
    }

    /// Borrow the list for read-only iteration.
    pub fn iter<'a>(&'a self) -> (it: Iter<'a, T>)
        ensures
            it@ == self@,
    {
        Iter {
            next: match &self.head {
                Some(node) => Some(&**node),
                None => None,
            },
        }
    }
}

impl<'a, T> Iter<'a, T> {
    /// The elements not yet visited, nearest first.
    pub closed spec fn view(self) -> Seq<T> {
        match self.next {
            None => Seq::empty(),
            Some(n) => seq![n.val] + link_view(n.next),
        }
    }

    /// Yield a reference to the next element, or report exhaustion.
    pub fn next(&mut self) -> (r: Option<&'a T>)
        ensures
            old(self)@.len() == 0 ==> (r is None && final(self)@ == old(self)@),
            old(self)@.len() > 0 ==> (r matches Some(v) && *v == old(self)@[0] && final(self)@
                == old(self)@.skip(1)),
    {
        match self.next {
            Some(node) => {
                self.next = match &node.next {
                    Some(nx) => Some(&**nx),
                    None => None,
                };
                proof {
                    assert(self@ =~= old(self)@.skip(1));
                }
                Some(&node.val)
            }
            None => None,
        }
    }
}

} // verus!
