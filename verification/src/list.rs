//! The list handle and the links it owns.

use vstd::prelude::*;

verus! {

/// A link of a chain. A node always stands for at least one element: its own
/// payload, followed by the payloads of the links it owns.
pub struct Node<T> {
    data: T,
    next: Option<Box<Node<T>>>,
}

impl<T> View for Node<T> {
    type V = Seq<T>;

    open spec fn view(&self) -> Seq<T> {
        self.payloads()
    }
}

/// The payloads reachable through a successor slot: none if the slot is empty.
spec fn slot_payloads<T>(slot: Option<Box<Node<T>>>) -> Seq<T> {
    match slot {
        None => Seq::empty(),
        Some(node) => node.payloads(),
    }
}

impl<T> Node<T> {
    /// The payloads of the chain that starts at this node, front first.
    pub closed spec fn payloads(self) -> Seq<T>
        decreases self,
    {
        match self.next {
            None => seq![self.data],
            Some(rest) => seq![self.data] + rest.payloads(),
        }
    }

    /// A chain is never empty: it holds at least the payload of its first link.
    pub proof fn lemma_nonempty(&self)
        ensures
            self@.len() >= 1,
    {
    }

    /// A chain of one element is a link without a successor.
    proof fn lemma_single(&self)
        requires
            self@.len() == 1,
        ensures
            self.next is None,
            self@ == seq![self.data],
    {
        if let Some(rest) = self.next {
            rest.lemma_nonempty();
        }
    }

    /// A node with the given payload and no successor.
    pub fn new(data: T) -> (node: Node<T>)
        ensures
            node@ == seq![data],
    {
        Node { data: data, next: None }
    }

    /// The payload of the first link.
    pub fn data(&self) -> (payload: &T)
        ensures
            *payload == self@.first(),
    {
        &self.data
    }

    /// The link that follows the first one, if there is one.
    pub fn next(&self) -> (rest: Option<&Node<T>>)
        ensures
            rest is None <==> self@.len() == 1,
            rest is Some ==> rest.unwrap()@ == self@.drop_first(),
    {
        match &self.next {
            None => None,
            Some(rest) => {
                proof {
                    rest.lemma_nonempty();
                }
                assert(rest@ =~= self@.drop_first());
                Some(&**rest)
            },
        }
    }

    /// The number of links in the chain that starts at this node, counted by
    /// walking the chain.
    ///
    /// A chain of more than `usize::MAX` links does not fit in memory, but
    /// the logic knows no memory: the caller states that the count fits.
    pub fn length(&self) -> (n: usize)
        requires
            self@.len() <= usize::MAX,
        ensures
            n == self@.len(),
            n >= 1,
    {
        let mut cur: &Node<T> = self;
        let mut n: usize = 1;
        while cur.next.is_some()
            invariant
                self@.len() <= usize::MAX,
                n + cur@.len() == self@.len() + 1,
            decreases cur@.len(),
        {
            cur = cur.next.as_ref().unwrap();
            proof {
                cur.lemma_nonempty();
            }
            n = n + 1;
        }
        n
    }

    /// The terminal link of the chain, found by walking the chain: the node
    /// itself where nothing follows it.
    pub fn last(&self) -> (tail: &Node<T>)
        ensures
            tail@ == seq![self@.last()],
    {
        let mut cur: &Node<T> = self;
        while cur.next.is_some()
            invariant
                cur@.last() == self@.last(),
            decreases cur@.len(),
        {
            cur = cur.next.as_ref().unwrap();
            proof {
                cur.lemma_nonempty();
            }
        }
        cur
    }

    /// The terminal link of the chain, for writing: what the caller makes of
    /// it takes the place of the last element.
    pub fn last_mut(&mut self) -> (tail: &mut Node<T>)
        ensures
            tail@ == seq![old(self)@.last()],
            final(self)@ == old(self)@.drop_last() + final(tail)@,
    {
        let ghost mut front: Seq<T> = Seq::empty();
        let ghost whole: Node<T> = *final(self);
        let mut cur: &mut Node<T> = self;
        while cur.next.is_some()
            invariant
                front + cur@ == old(self)@,
                whole@ == front + final(cur)@,
            decreases cur@.len(),
        {
            proof {
                front = front.push(cur.data);
            }
            cur = cur.next.as_mut().unwrap();
            proof {
                cur.lemma_nonempty();
            }
        }
        cur
    }

    /// Attaches `node`, with all that it owns, behind the terminal link.
    pub fn append(&mut self, node: Node<T>)
        ensures
            final(self)@ == old(self)@ + node@,
    {
        proof {
            self.lemma_nonempty();
        }
        let tail = self.last_mut();
        proof {
            tail.lemma_single();
        }
        tail.next = Some(Box::new(node));
        assert(old(self)@.drop_last() + (seq![old(self)@.last()] + node@) =~= old(self)@ + node@);
    }

    /// Puts the first link of `node` in front of this chain. Whatever
    /// followed that link in `node` is released.
    pub fn prepend(&mut self, node: Node<T>)
        ensures
            final(self)@ == seq![node@.first()] + old(self)@,
    {
        let mut previous = node;
        std::mem::swap(self, &mut previous);
        self.next = Some(Box::new(previous));
    }

    /// Removes the first link and hands it back as a chain of its own. A
    /// chain of one link is left as it is, since a node cannot stand for an
    /// empty chain.
    pub fn drop_head(&mut self) -> (head: Option<Node<T>>)
        ensures
            old(self)@.len() == 1 ==> head is None && final(self)@ == old(self)@,
            old(self)@.len() > 1 ==> head is Some && head.unwrap()@ == seq![old(self)@.first()]
                && final(self)@ == old(self)@.drop_first(),
    {
        proof {
            self.lemma_nonempty();
        }
        match self.next.take() {
            None => None,
            Some(rest) => {
                let mut detached: Node<T> = *rest;
                proof {
                    detached.lemma_nonempty();
                }
                std::mem::swap(self, &mut detached);
                assert(self@ =~= old(self)@.drop_first());
                Some(detached)
            },
        }
    }

    /// Reverses the chain in place, reusing its links: the front link is
    /// detached and put in front of those detached before, until one link is
    /// left, which then takes them as its successors.
    pub fn reverse(&mut self)
        ensures
            final(self)@ == old(self)@.reverse(),
            final(self)@.len() == old(self)@.len(),
    {
        let mut reversed: Option<Box<Node<T>>> = None;
        loop
            invariant
                slot_payloads(reversed).reverse() + self@ == old(self)@,
            ensures
                self@.len() == 1,
            decreases self@.len(),
        {
            match self.drop_head() {
                None => {
                    break ;
                },
                Some(front) => {
                    let mut front = front;
                    proof {
                        front.lemma_single();
                    }
                    let ghost done = slot_payloads(reversed);
                    let ghost moved = front.data;
                    front.next = reversed;
                    reversed = Some(Box::new(front));
                    assert(slot_payloads(reversed).reverse() =~= done.reverse().push(moved));
                },
            }
        }
        proof {
            self.lemma_single();
        }
        self.next = reversed;
        assert(self@ =~= old(self)@.reverse());
    }
}

/// A list: a handle that owns a chain of links, or nothing when it is empty.
pub struct List<T> {
    head: Option<Box<Node<T>>>,
}

impl<T> View for List<T> {
    type V = Seq<T>;

    /// The payloads that the list holds, front first.
    closed spec fn view(&self) -> Seq<T> {
        slot_payloads(self.head)
    }
}

impl<T> List<T> {
    /// A list holds no element exactly when it owns no link.
    proof fn lemma_empty_without_head(&self)
        ensures
            self.head is None <==> self@.len() == 0,
    {
        if let Some(node) = &self.head {
            node.lemma_nonempty();
        }
    }

    /// The empty list.
    pub fn new() -> (list: List<T>)
        ensures
            list@ == Seq::<T>::empty(),
    {
        List { head: None }
    }

    /// The list that holds `data` and nothing else.
    pub fn single(data: T) -> (list: List<T>)
        ensures
            list@ == seq![data],
    {
        List { head: Some(Box::new(Node { data: data, next: None })) }
    }

    /// The number of elements: zero for the empty list and for no other.
    ///
    /// A chain of more than `usize::MAX` links does not fit in memory, but
    /// the logic knows no memory: the caller states that the count fits.
    pub fn length(&self) -> (n: usize)
        requires
            self@.len() <= usize::MAX,
        ensures
            n == self@.len(),
            n == 0 <==> self@ == Seq::<T>::empty(),
    {
        match &self.head {
            Some(boxed_node) => boxed_node.length(),
            None => 0,
        }
    }

    /// The first link, whose chain is the whole list; nothing if the list is
    /// empty.
    pub fn first(&self) -> (front: Option<&Node<T>>)
        ensures
            front is None <==> self@.len() == 0,
            front is Some ==> front.unwrap()@ == self@,
    {
        match &self.head {
            None => None,
            Some(boxed_node) => {
                proof {
                    boxed_node.lemma_nonempty();
                }
                Some(&**boxed_node)
            },
        }
    }

    /// The terminal link, which holds the last element and has no successor;
    /// nothing if the list is empty.
    pub fn last(&self) -> (tail: Option<&Node<T>>)
        ensures
            tail is None <==> self@.len() == 0,
            tail is Some ==> tail.unwrap()@ == seq![self@.last()],
    {
        match &self.head {
            Some(boxed_node) => {
                proof {
                    boxed_node.lemma_nonempty();
                }
                Some(boxed_node.last())
            },
            None => None,
        }
    }

    /// Moves the elements of `list` behind those of this list. An empty list
    /// takes over the chain of `list`; any other hands it to its terminal link.
    pub fn append(&mut self, list: List<T>)
        ensures
            final(self)@ == old(self)@ + list@,
            final(self)@.len() == old(self)@.len() + list@.len(),
    {
        match &mut self.head {
            Some(boxed_node) => {
                proof {
                    boxed_node.lemma_nonempty();
                }
                let tail = boxed_node.last_mut();
                proof {
                    tail.lemma_single();
                }
                tail.next = list.head;
                assert(old(self)@.drop_last() + (seq![old(self)@.last()] + list@) =~= old(self)@
                    + list@);
            },
            None => {
                self.head = list.head;
            },
        }
    }

    /// Moves the elements of `list` in front of those of this list: the two
    /// change places, and what this list held is appended.
    pub fn prepend(&mut self, list: List<T>)
        ensures
            final(self)@ == list@ + old(self)@,
            final(self)@.len() == list@.len() + old(self)@.len(),
    {
        let mut list = list;
        std::mem::swap(self, &mut list);
        self.append(list);
    }

    /// Detaches the first element and hands it back as a list of its own.
    /// An empty list stays empty and gives nothing.
    pub fn drop_head(&mut self) -> (head: Option<List<T>>)
        ensures
            old(self)@.len() == 0 ==> head is None && final(self)@ == old(self)@,
            old(self)@.len() > 0 ==> head is Some && head.unwrap()@ == seq![old(self)@.first()]
                && final(self)@ == old(self)@.drop_first(),
    {
        match self.head.take() {
            None => None,
            Some(boxed_node) => {
                let mut boxed_node = boxed_node;
                self.head = boxed_node.next.take();
                proof {
                    self.lemma_empty_without_head();
                    assert(self@ =~= old(self)@.drop_first());
                }
                Some(List { head: Some(boxed_node) })
            },
        }
    }

    /// Reverses the list in place, reusing its links: the head is dropped
    /// and put in front of what was dropped before, until nothing is left.
    pub fn reverse(&mut self)
        ensures
            final(self)@ == old(self)@.reverse(),
            final(self)@.len() == old(self)@.len(),
    {
        let mut new_list: List<T> = List::new();
        while self.head.is_some()
            invariant
                new_list@.reverse() + self@ == old(self)@,
            decreases self@.len(),
        {
            proof {
                self.lemma_empty_without_head();
            }
            let ghost done = new_list@;
            let front = self.drop_head().unwrap();
            let ghost moved = front@;
            new_list.prepend(front);
            assert(new_list@.reverse() =~= done.reverse() + moved);
        }
        std::mem::swap(self, &mut new_list);
        assert(self@ =~= old(self)@.reverse());
    }
}

} // verus!
