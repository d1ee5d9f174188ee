//! A double-ended queue over a doubly-linked chain of nodes.
//!
//! Each element lives in a [`Node`] together with two link slots naming its
//! predecessor and successor. The nodes are stored in an arena (a growable
//! table owned by the [`List`]), and the links are slot indices; removed
//! slots are kept on a free list and reused by later insertions. This keeps
//! the chain doubly linked — every splice rewires a `prev` and a `next`
//! slot — while the arena remains the single owner of every node, so
//! teardown is an iterative release of the slots, never a recursive walk of
//! the chain.

use vstd::prelude::*;

verus! {

/// One cell of the chain: the stored element and the arena indices of the
/// two neighbours. A link is absent at the corresponding end of the chain.
pub struct Node<T> {
    /// The element this node carries.
    pub value: T,
    /// Arena index of the predecessor; absent for the head node.
    pub prev: Option<usize>,
    /// Arena index of the successor; absent for the tail node.
    pub next: Option<usize>,
}

impl<T> Node<T> {
    /// A fresh node holding `value`, with both links absent.
    pub fn new(value: T) -> (n: Node<T>)
        ensures
            n.value == value,
            n.prev is None,
            n.next is None,
    {
        Node { value, prev: None, next: None }
    }
}

/// A double-ended queue. Elements sit in a doubly-linked chain of nodes;
/// `head` and `tail` name the two boundary slots of the chain.
pub struct List<T> {
    nodes: Vec<Option<Node<T>>>,
    head: Option<usize>,
    tail: Option<usize>,
    free: Vec<usize>,
    order: Ghost<Seq<usize>>,
}

impl<T> List<T> {
    /// The arena slots of the chain, front to back.
    pub closed spec fn order_seq(self) -> Seq<usize> {
        self.order@
    }

    /// The arena slot the deque's `head` link names, if any.
    pub closed spec fn head_link(self) -> Option<usize> {
        self.head
    }

    /// The arena slot the deque's `tail` link names, if any.
    pub closed spec fn tail_link(self) -> Option<usize> {
        self.tail
    }

    /// Whether arena slot `i` holds a node.
    pub closed spec fn slot_filled(self, i: usize) -> bool {
        i < self.nodes@.len() && self.nodes@[i as int] is Some
    }

    /// The `prev` link of the node in arena slot `i`.
    pub closed spec fn prev_link_of(self, i: usize) -> Option<usize> {
        self.nodes@[i as int]->Some_0.prev
    }

    /// The `next` link of the node in arena slot `i`.
    pub closed spec fn next_link_of(self, i: usize) -> Option<usize> {
        self.nodes@[i as int]->Some_0.next
    }

    /// Well-formedness of the structure: `head` and `tail` name the ends of
    /// the chain; each chain slot holds a node whose `prev` and `next` links
    /// name exactly its neighbours in the chain (absent at the boundary);
    /// no slot appears twice; free slots are vacant and distinct; and every
    /// arena slot is either on the chain or on the free list.
    pub closed spec fn wf(self) -> bool {
        let s = self.order@;
        &&& self.head == (if s.len() == 0 { None::<usize> } else { Some(s[0]) })
        &&& self.tail == (if s.len() == 0 { None::<usize> } else { Some(s[s.len() - 1]) })
        &&& (forall|i: int| 0 <= i < s.len() ==> (#[trigger] s[i]) < self.nodes@.len())
        &&& (forall|i: int| 0 <= i < s.len() ==> (#[trigger] self.nodes@[s[i] as int]) is Some)
        &&& (forall|i: int| 0 <= i < s.len() ==> (#[trigger] self.nodes@[s[i] as int])->Some_0.prev
            == (if i == 0 { None::<usize> } else { Some(s[i - 1]) }))
        &&& (forall|i: int| 0 <= i < s.len() ==> (#[trigger] self.nodes@[s[i] as int])->Some_0.next
            == (if i == s.len() - 1 { None::<usize> } else { Some(s[i + 1]) }))
        &&& (forall|i: int, j: int| 0 <= i < j < s.len() ==> s[i] != s[j])
        &&& (forall|j: int| 0 <= j < self.free@.len() ==> (#[trigger] self.free@[j]) < self.nodes@.len()
            && self.nodes@[self.free@[j] as int] is None)
        &&& (forall|i: int, j: int| 0 <= i < j < self.free@.len() ==> self.free@[i] != self.free@[j])
        &&& s.len() + self.free@.len() == self.nodes@.len()
    }

    /// The elements of the deque, front to back.
    pub closed spec fn view(self) -> Seq<T> {
        Seq::new(self.order@.len(), |i: int| self.nodes@[self.order@[i] as int]->Some_0.value)
    }

    /// An empty deque: both boundary links absent, no elements.
    pub fn new() -> (l: List<T>)
        ensures
            l.wf(),
            l@ == Seq::<T>::empty(),
    {
        let l = List {
            nodes: Vec::new(),
            head: None,
            tail: None,
            free: Vec::new(),
            order: Ghost(Seq::empty()),
        };
        proof {
            assert(l@ =~= Seq::<T>::empty());
        }
        l
    }

    /// Place a detached node into a vacant arena slot, reusing a freed slot
    /// when one exists, and return the slot's index.
    fn place(&mut self, node: Node<T>) -> (idx: usize)
        requires
            old(self).wf(),
        ensures
            final(self).order == old(self).order,
            final(self).head == old(self).head,
            final(self).tail == old(self).tail,
            idx < final(self).nodes@.len(),
            ({
                ||| (old(self).free@.len() > 0 && idx == old(self).free@[old(self).free@.len() - 1]
                    && old(self).nodes@[idx as int] is None
                    && final(self).free@ == old(self).free@.drop_last()
                    && final(self).nodes@ == old(self).nodes@.update(idx as int, Some(node)))
                ||| (old(self).free@.len() == 0 && idx == old(self).nodes@.len()
                    && final(self).free@ == old(self).free@
                    && final(self).nodes@ == old(self).nodes@.push(Some(node)))
            }),
    {
        match self.free.pop() {
            Some(f) => {
                self.nodes[f] = Some(node);
                f
            }
            None => {
                let f = self.nodes.len();
                self.nodes.push(Some(node));
                f
            }
        }
    }

    /// Rewire the `prev` link of the node in slot `i`.
    fn set_prev(&mut self, i: usize, p: Option<usize>)
        requires
            i < old(self).nodes@.len(),
            old(self).nodes@[i as int] is Some,
        ensures
            final(self).nodes@ == old(self).nodes@.update(i as int, (Some(Node {
                value: old(self).nodes@[i as int]->Some_0.value,
                prev: p,
                next: old(self).nodes@[i as int]->Some_0.next,
            }))),
            final(self).head == old(self).head,
            final(self).tail == old(self).tail,
            final(self).free == old(self).free,
            final(self).order == old(self).order,
    {
        match &mut self.nodes[i] {
            Some(n) => {
                n.prev = p;
            }
            None => {}
        }
        proof {
            assert(self.nodes@ =~= old(self).nodes@.update(i as int, (Some(Node {
                value: old(self).nodes@[i as int]->Some_0.value,
                prev: p,
                next: old(self).nodes@[i as int]->Some_0.next,
            }))));
        }
    }

    /// Rewire the `next` link of the node in slot `i`.
    fn set_next(&mut self, i: usize, nx: Option<usize>)
        requires
            i < old(self).nodes@.len(),
            old(self).nodes@[i as int] is Some,
        ensures
            final(self).nodes@ == old(self).nodes@.update(i as int, (Some(Node {
                value: old(self).nodes@[i as int]->Some_0.value,
                prev: old(self).nodes@[i as int]->Some_0.prev,
                next: nx,
            }))),
            final(self).head == old(self).head,
            final(self).tail == old(self).tail,
            final(self).free == old(self).free,
            final(self).order == old(self).order,
    {
        match &mut self.nodes[i] {
            Some(n) => {
                n.next = nx;
            }
            None => {}
        }
        proof {
            assert(self.nodes@ =~= old(self).nodes@.update(i as int, (Some(Node {
                value: old(self).nodes@[i as int]->Some_0.value,
                prev: old(self).nodes@[i as int]->Some_0.prev,
                next: nx,
            }))));
        }
    }

    /// Insert `value` as the new front element.
    ///
    /// A fresh node is spliced before the current head: its `next` link
    /// names the old head, the old head's `prev` link is rewired to it, and
    /// `head` is moved onto it. On an empty deque it becomes both head and
    /// tail.
    pub fn push_front(&mut self, value: T)
        requires
            old(self).wf(),
        ensures
            final(self).wf(),
            final(self)@ == seq![value] + old(self)@,
    {
        let ghost s_old = self.order@;
        let mut node = Node::new(value);
        node.next = self.head;
        let idx = self.place(node);
        proof {
            assert forall|i: int| 0 <= i < s_old.len() implies #[trigger] s_old[i] != idx by {
                assert(old(self).nodes@[s_old[i] as int] is Some);
            }
        }
        match self.head {
            Some(h) => {
                proof {
                    assert(h == s_old[0]);
                    assert(old(self).nodes@[h as int] is Some);
                }
                self.set_prev(h, Some(idx));
            }
            None => {
                self.tail = Some(idx);
            }
        }
        self.head = Some(idx);
        self.order = Ghost(seq![idx] + s_old);
        proof {
            let s_new = self.order@;
            assert forall|i: int| 0 <= i < s_new.len() implies #[trigger] s_new[i] == (if i == 0 {
                idx
            } else {
                s_old[i - 1]
            }) by {}
            assert forall|i: int| 0 <= i < s_new.len() implies (#[trigger] self.nodes@[s_new[i] as int])
                is Some by {
                if i > 0 {
                    assert(old(self).nodes@[s_old[i - 1] as int] is Some);
                }
            }
            assert forall|i: int| 0 <= i < s_new.len() implies (#[trigger] self.nodes@[s_new[i] as int])->Some_0.prev
                == (if i == 0 { None::<usize> } else { Some(s_new[i - 1]) }) by {
                if i > 1 {
                    assert(old(self).nodes@[s_old[i - 1] as int] is Some);
                    assert(old(self).nodes@[s_old[i - 1] as int]->Some_0.prev == Some(s_old[i - 2]));
                }
            }
            assert forall|i: int| 0 <= i < s_new.len() implies (#[trigger] self.nodes@[s_new[i] as int])->Some_0.next
                == (if i == s_new.len() - 1 { None::<usize> } else { Some(s_new[i + 1]) }) by {
                if i > 0 {
                    assert(old(self).nodes@[s_old[i - 1] as int] is Some);
                }
            }
            assert(self.wf());
            assert(self@ =~= seq![value] + old(self)@);
        }
    }

    /// Remove and return the front element, or report absence on an empty
    /// deque.
    ///
    /// The head node is detached: its slot is vacated and freed, its
    /// successor (if any) gets an absent `prev` link and becomes the new
    /// head; when it had no successor the deque becomes empty and `tail` is
    /// cleared too. The vacated slot held the only copy of the element,
    /// which is moved out and returned.
    pub fn pop_front(&mut self) -> (r: Option<T>)
        requires
            old(self).wf(),
        ensures
            final(self).wf(),
            match r {
                None => old(self)@.len() == 0 && final(self)@ == old(self)@,
                Some(v) => old(self)@.len() > 0 && v == old(self)@[0] && final(self)@ == old(
                    self,
                )@.skip(1),
            },
    {
        match self.head {
            None => None,
            Some(h) => {
                let node = self.nodes[h].take().unwrap();
                self.free.push(h);
                match node.next {
                    Some(nh) => {
                        match &mut self.nodes[nh] {
                            Some(n2) => {
                                n2.prev = None;
                            }
                            None => {}
                        }
                        self.head = Some(nh);
                    }
                    None => {
                        self.head = None;
                        self.tail = None;
                    }
                }
                self.order = Ghost(self.order@.skip(1));
                proof {
                    assert(self@ =~= old(self)@.skip(1));
                }
                Some(node.value)
            }
        }
    }

    /// Insert `value` as the new back element; the mirror image of
    /// [`List::push_front`], splicing after the current tail.
    pub fn push_back(&mut self, value: T)
        requires
            old(self).wf(),
        ensures
            final(self).wf(),
            final(self)@ == old(self)@ + seq![value],
    {
        let ghost s_old = self.order@;
        let mut node = Node::new(value);
        node.prev = self.tail;
        let idx = self.place(node);
        proof {
            assert forall|i: int| 0 <= i < s_old.len() implies #[trigger] s_old[i] != idx by {
                assert(old(self).nodes@[s_old[i] as int] is Some);
            }
        }
        match self.tail {
            Some(t) => {
                proof {
                    assert(t == s_old[s_old.len() - 1]);
                    assert(old(self).nodes@[t as int] is Some);
                }
                self.set_next(t, Some(idx));
            }
            None => {
                self.head = Some(idx);
            }
        }
        self.tail = Some(idx);
        self.order = Ghost(s_old.push(idx));
        proof {
            let s_new = self.order@;
            assert forall|i: int| 0 <= i < s_new.len() implies #[trigger] s_new[i] == (if i
                == s_new.len() - 1 {
                idx
            } else {
                s_old[i]
            }) by {}
            assert forall|i: int| 0 <= i < s_new.len() implies (#[trigger] self.nodes@[s_new[i] as int])
                is Some by {
                if i < s_new.len() - 1 {
                    assert(old(self).nodes@[s_old[i] as int] is Some);
                }
            }
            assert forall|i: int| 0 <= i < s_new.len() implies (#[trigger] self.nodes@[s_new[i] as int])->Some_0.next
                == (if i == s_new.len() - 1 { None::<usize> } else { Some(s_new[i + 1]) }) by {
                if i < s_new.len() - 2 {
                    assert(old(self).nodes@[s_old[i] as int] is Some);
                    assert(old(self).nodes@[s_old[i] as int]->Some_0.next == Some(s_old[i + 1]));
                }
            }
            assert forall|i: int| 0 <= i < s_new.len() implies (#[trigger] self.nodes@[s_new[i] as int])->Some_0.prev
                == (if i == 0 { None::<usize> } else { Some(s_new[i - 1]) }) by {
                if i < s_new.len() - 1 {
                    assert(old(self).nodes@[s_old[i] as int] is Some);
                }
            }
            assert(self.wf());
            assert(self@ =~= old(self)@ + seq![value]);
        }
    }

    /// Remove and return the back element, or report absence on an empty
    /// deque; the mirror image of [`List::pop_front`].
    pub fn pop_back(&mut self) -> (r: Option<T>)
        requires
            old(self).wf(),
        ensures
            final(self).wf(),
            match r {
                None => old(self)@.len() == 0 && final(self)@ == old(self)@,
                Some(v) => old(self)@.len() > 0 && v == old(self)@.last() && final(self)@ == old(
                    self,
                )@.drop_last(),
            },
    {
        match self.tail {
            None => None,
            Some(t) => {
                let node = self.nodes[t].take().unwrap();
                self.free.push(t);
                match node.prev {
                    Some(pt) => {
                        match &mut self.nodes[pt] {
                            Some(n2) => {
                                n2.next = None;
                            }
                            None => {}
                        }
                        self.tail = Some(pt);
                    }
                    None => {
                        self.head = None;
                        self.tail = None;
                    }
                }
                self.order = Ghost(self.order@.drop_last());
                proof {
                    assert(self@ =~= old(self)@.drop_last());
                }
                Some(node.value)
            }
        }
    }

    /// A read-only view of the front element, absent on an empty deque.
    pub fn peek_front(&self) -> (r: Option<&T>)
        requires
            self.wf(),
        ensures
            self@.len() == 0 ==> r is None,
            self@.len() > 0 ==> (r matches Some(v) && *v == self@[0]),
    {
        match self.head {
            None => None,
            Some(h) => match &self.nodes[h] {
                Some(n) => Some(&n.value),
                None => None,
            },
        }
    }

    /// A read-only view of the back element, absent on an empty deque.
    pub fn peek_back(&self) -> (r: Option<&T>)
        requires
            self.wf(),
        ensures
            self@.len() == 0 ==> r is None,
            self@.len() > 0 ==> (r matches Some(v) && *v == self@.last()),
    {
        match self.tail {
            None => None,
            Some(t) => match &self.nodes[t] {
                Some(n) => Some(&n.value),
                None => None,
            },
        }
    }

    /// An exclusive view of the front element, absent on an empty deque.
    ///
    /// Exclusive access to an element demands exclusive access to the whole
    /// deque, so a second outstanding view of any node is impossible here by
    /// construction.
    pub fn peek_front_mut(&mut self) -> (r: Option<&mut T>)
        requires
            old(self).wf(),
        ensures
            final(self).wf(),
            old(self)@.len() == 0 ==> r is None && final(self)@ == old(self)@,
            old(self)@.len() > 0 ==> (r matches Some(v) && *v == old(self)@[0] && final(self)@
                =~= old(self)@.update(0, *final(v))),
    {
        match self.head {
            None => None,
            Some(h) => match &mut self.nodes[h] {
                Some(n) => Some(&mut n.value),
                None => None,
            },
        }
    }

    /// An exclusive view of the back element, absent on an empty deque; the
    /// mirror image of [`List::peek_front_mut`].
    pub fn peek_back_mut(&mut self) -> (r: Option<&mut T>)
        requires
            old(self).wf(),
        ensures
            final(self).wf(),
            old(self)@.len() == 0 ==> r is None && final(self)@ == old(self)@,
            old(self)@.len() > 0 ==> (r matches Some(v) && *v == old(self)@.last() && final(self)@
                =~= old(self)@.update(old(self)@.len() - 1, *final(v))),
    {
        match self.tail {
            None => None,
            Some(t) => match &mut self.nodes[t] {
                Some(n) => Some(&mut n.value),
                None => None,
            },
        }
    }

    /// Convert the deque into a consuming two-ended iterator over its
    /// elements. The iterator owns the deque; no other access remains.
    pub fn into_iter(self) -> (it: IntoIter<T>)
        requires
            self.wf(),
        ensures
            it.wf(),
            it@ == self@,
    {
        IntoIter(self)
    }

    /// Release every element, front first: repeated [`List::pop_front`]
    /// until the deque reports empty, so the whole chain is torn down by an
    /// iterative loop with constant auxiliary space, never by a recursive
    /// walk of the links.
    pub fn clear(&mut self)
        requires
            old(self).wf(),
        ensures
            final(self).wf(),
            final(self)@ == Seq::<T>::empty(),
    {
        loop
            invariant
                self.wf(),
            ensures
                self.wf() && self@.len() == 0,
            decreases self@.len(),
        {
            match self.pop_front() {
                Some(_) => {}
                None => {
                    break ;
                }
            }
        }
        proof {
            assert(self@ =~= Seq::<T>::empty());
        }
    }
}

/// A consuming iterator over a deque: advancing from the front pops the
/// front, advancing from the back pops the back, and the two directions
/// consume opposite ends of the same remaining sequence until they meet.
pub struct IntoIter<T>(List<T>);

impl<T> IntoIter<T> {
    /// Well-formedness, inherited from the underlying deque.
    pub closed spec fn wf(self) -> bool {
        self.0.wf()
    }

    /// The elements not yet consumed, front to back.
    pub closed spec fn view(self) -> Seq<T> {
        self.0@
    }

    /// Consume and return the front of the remaining elements, or report
    /// exhaustion.
    pub fn next(&mut self) -> (r: Option<T>)
        requires
            old(self).wf(),
        ensures
            final(self).wf(),
            match r {
                None => old(self)@.len() == 0 && final(self)@ == old(self)@,
                Some(v) => old(self)@.len() > 0 && v == old(self)@[0] && final(self)@ == old(
                    self,
                )@.skip(1),
            },
    {
        self.0.pop_front()
    }

    /// Consume and return the back of the remaining elements, or report
    /// exhaustion.
    pub fn next_back(&mut self) -> (r: Option<T>)
        requires
            old(self).wf(),
        ensures
            final(self).wf(),
            match r {
                None => old(self)@.len() == 0 && final(self)@ == old(self)@,
                Some(v) => old(self)@.len() > 0 && v == old(self)@.last() && final(self)@ == old(
                    self,
                )@.drop_last(),
            },
    {
        self.0.pop_back()
    }
}

/// The elements a deque holds after a sequence of pushes starting from
/// empty. Each step is exactly what [`List::push_front`] and
/// [`List::push_back`] promise: a push at the front (`true`) prepends its
/// element, a push at the back (`false`) appends it.
pub open spec fn after_pushes<T>(ops: Seq<(bool, T)>) -> Seq<T>
    decreases ops.len(),
{
    if ops.len() == 0 {
        Seq::empty()
    } else {
        let rest = after_pushes(ops.drop_last());
        if ops.last().0 {
            seq![ops.last().1] + rest
        } else {
            rest + seq![ops.last().1]
        }
    }
}

/// The elements of `ops` pushed at the front, in push order.
pub open spec fn fronts_of<T>(ops: Seq<(bool, T)>) -> Seq<T>
    decreases ops.len(),
{
    if ops.len() == 0 {
        Seq::empty()
    } else if ops.last().0 {
        fronts_of(ops.drop_last()).push(ops.last().1)
    } else {
        fronts_of(ops.drop_last())
    }
}

/// The elements of `ops` pushed at the back, in push order.
pub open spec fn backs_of<T>(ops: Seq<(bool, T)>) -> Seq<T>
    decreases ops.len(),
{
    if ops.len() == 0 {
        Seq::empty()
    } else if ops.last().0 {
        backs_of(ops.drop_last())
    } else {
        backs_of(ops.drop_last()).push(ops.last().1)
    }
}

/// Deque ordering law: after any sequence of pushes at the two ends,
/// reading the deque front to back gives the front-pushed elements in
/// reverse push order, followed by the back-pushed elements in push order.
pub proof fn lemma_push_ordering<T>(ops: Seq<(bool, T)>)
    ensures
        after_pushes(ops) == fronts_of(ops).reverse() + backs_of(ops),
    decreases ops.len(),
{
    if ops.len() == 0 {
        assert(after_pushes(ops) =~= fronts_of(ops).reverse() + backs_of(ops));
    } else {
        let rest = ops.drop_last();
        let x = ops.last().1;
        lemma_push_ordering(rest);
        if ops.last().0 {
            assert(fronts_of(rest).push(x).reverse() =~= seq![x] + fronts_of(rest).reverse());
            assert(after_pushes(ops) =~= fronts_of(ops).reverse() + backs_of(ops));
        } else {
            assert(after_pushes(ops) =~= fronts_of(ops).reverse() + backs_of(ops));
        }
    }
}

/// Round-trip law: pushing `x` at the front of a deque holding `s` and
/// popping the front returns `x` and leaves exactly `s`, by the contracts
/// of [`List::push_front`] and [`List::pop_front`].
pub proof fn lemma_push_front_pop_front<T>(s: Seq<T>, x: T)
    ensures
        (seq![x] + s)[0] == x,
        (seq![x] + s).skip(1) == s,
{
    assert((seq![x] + s).skip(1) =~= s);
}

/// Structural invariants of a well-formed deque.
///
/// The boundary links are absent exactly when the deque is empty; the chain
/// visits one filled arena slot per element, the `next` links walk it front
/// to back from the head slot and the `prev` links walk it back to front
/// from the tail slot as exact mirror images; and the head node's `prev`
/// and the tail node's `next` are always absent.
pub proof fn lemma_chain_invariants<T>(l: List<T>)
    requires
        l.wf(),
    ensures
        l.head_link() is None <==> l@.len() == 0,
        l.tail_link() is None <==> l@.len() == 0,
        l.order_seq().len() == l@.len(),
        l@.len() > 0 ==> l.head_link() == Some(l.order_seq()[0]),
        l@.len() > 0 ==> l.tail_link() == Some(l.order_seq()[l@.len() - 1]),
        forall|k: int| 0 <= k < l@.len() ==> l.slot_filled(#[trigger] l.order_seq()[k]),
        forall|k: int|
            0 <= k < l@.len() ==> l.next_link_of(#[trigger] l.order_seq()[k]) == (if k < l@.len()
                - 1 {
                Some(l.order_seq()[k + 1])
            } else {
                None
            }),
        forall|k: int|
            0 <= k < l@.len() ==> l.prev_link_of(#[trigger] l.order_seq()[k]) == (if k > 0 {
                Some(l.order_seq()[k - 1])
            } else {
                None
            }),
{
}

/// What a consuming two-ended iterator yields over a run of steps.
///
/// `ds` gives the direction of each step, `true` for a step from the front
/// and `false` for a step from the back, applied to a remaining sequence
/// `s`. Each step is exactly what [`IntoIter::next`] and
/// [`IntoIter::next_back`] promise: a front step yields the first
/// remaining element, a back step the last, and once the two directions
/// have met and nothing remains every further step yields nothing. The
/// result collects the front yields in yield order, the back yields in
/// yield order, and what remains.
pub open spec fn consume<T>(s: Seq<T>, ds: Seq<bool>) -> (Seq<T>, Seq<T>, Seq<T>)
    decreases ds.len(),
{
    if ds.len() == 0 || s.len() == 0 {
        (Seq::empty(), Seq::empty(), s)
    } else if ds[0] {
        let r = consume(s.skip(1), ds.skip(1));
        (seq![s[0]] + r.0, r.1, r.2)
    } else {
        let r = consume(s.drop_last(), ds.skip(1));
        (r.0, seq![s.last()] + r.1, r.2)
    }
}

/// Two-ended consumption never yields an element twice and loses none:
/// whatever the interleaving of front and back steps, the front yields,
/// the untouched middle, and the back yields read inward-to-outward
/// concatenate to exactly the elements the iterator started with, once
/// each.
pub proof fn lemma_consume_partition<T>(s: Seq<T>, ds: Seq<bool>)
    ensures
        consume(s, ds).0 + consume(s, ds).2 + consume(s, ds).1.reverse() == s,
    decreases ds.len(),
{
    if ds.len() == 0 || s.len() == 0 {
        assert(consume(s, ds).0 + consume(s, ds).2 + consume(s, ds).1.reverse() =~= s);
    } else if ds[0] {
        let r = consume(s.skip(1), ds.skip(1));
        lemma_consume_partition(s.skip(1), ds.skip(1));
        assert((seq![s[0]] + r.0) + r.2 + r.1.reverse() =~= seq![s[0]] + (r.0 + r.2
            + r.1.reverse()));
        assert(seq![s[0]] + s.skip(1) =~= s);
    } else {
        let r = consume(s.drop_last(), ds.skip(1));
        lemma_consume_partition(s.drop_last(), ds.skip(1));
        assert((seq![s.last()] + r.1).reverse() =~= r.1.reverse() + seq![s.last()]);
        assert(r.0 + r.2 + (r.1.reverse() + seq![s.last()]) =~= (r.0 + r.2 + r.1.reverse())
            + seq![s.last()]);
        assert(s.drop_last() + seq![s.last()] =~= s);
    }
}

} // verus!
