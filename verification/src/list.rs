//! The recursive list type and its core construction, query and
//! mutation operations.

use vstd::prelude::*;

verus! {

/// A singly-linked list that is its own head node.
///
/// Each node holds at most one element (`head`) and exclusively owns at
/// most one successor node (`tail`).  An empty list has neither; a
/// *leaf* — the last node of a non-empty chain — has an element but no
/// successor.  Well-formed lists (see [`List::wf`]) never hold a
/// successor without an element, and every owned successor is itself a
/// non-empty well-formed list.
#[derive(Debug)]
pub struct List<T> {
    pub head: Option<T>,
    pub tail: Option<Box<List<T>>>,
}

impl<T> List<T> {
    /// The flat sequence of elements stored along the successor chain,
    /// front to back.
    pub open spec fn elems(self) -> Seq<T>
        decreases self,
    {
        match self.head {
            None => Seq::empty(),
            Some(h) => match self.tail {
                None => seq![h],
                Some(t) => seq![h] + t.elems(),
            },
        }
    }

    /// Well-formedness: a node without an element owns no successor,
    /// and every owned successor is non-empty and well-formed.  All
    /// constructors establish this and all mutators preserve it.
    pub open spec fn wf(self) -> bool
        decreases self,
    {
        match self.tail {
            None => true,
            Some(t) => self.head is Some && t.head is Some && t.wf(),
        }
    }
}

impl<T> View for List<T> {
    type V = Seq<T>;

    open spec fn view(&self) -> Seq<T> {
        self.elems()
    }
}

impl<T> Default for List<T> {
    /// The empty list: no element, no successor.
    fn default() -> (r: Self)
        ensures
            r.wf(),
            r@ == Seq::<T>::empty(),
    {
        List { head: None, tail: None }
    }
}

impl<T> List<T> {
    /// A single-element list: the element with no successor.
    pub fn leaf(element: T) -> (r: Self)
        ensures
            r.wf(),
            r@ == seq![element],
    {
        List { head: Some(element), tail: None }
    }

    /// A list is empty exactly when it holds no element.
    pub fn is_empty(&self) -> (r: bool)
        ensures
            r <==> self@.len() == 0,
            r <==> self.head is None,
    {
        self.head.is_none()
    }

    /// A leaf is a node holding an element with no successor; in a
    /// well-formed list that is exactly a list of one element.
    pub fn is_leaf(&self) -> (r: bool)
        requires
            self.wf(),
        ensures
            r <==> self@.len() == 1,
            r <==> (self.head is Some && self.tail is None),
    {
        proof {
            if self.head is Some && self.tail is Some {
                assert(self.tail.unwrap().elems().len() > 0);
            }
        }
        self.head.is_some() && self.tail.is_none()
    }

    /// A reference to the element at the front, if any.
    pub fn get_head(&self) -> (r: Option<&T>)
        requires
            self.wf(),
        ensures
            self@.len() == 0 ==> r is None,
            self@.len() > 0 ==> (r matches Some(x) && *x == self@[0]),
    {
        self.head.as_ref()
    }

    /// A reference to the owned successor list, if any.
    pub fn get_tail(&self) -> (r: Option<&Box<Self>>)
        requires
            self.wf(),
        ensures
            self@.len() <= 1 ==> r is None,
            self@.len() > 1 ==> (r matches Some(t) && t@ == self@.drop_first() && t.wf()),
    {
        proof {
            if self.tail is Some {
                assert(self.tail.unwrap().elems().len() > 0);
            }
        }
        self.tail.as_ref()
    }

    /// The terminal node of the successor chain: the node that owns no
    /// successor.
    pub open spec fn last_node(self) -> Self
        decreases self,
    {
        match self.tail {
            None => self,
            Some(t) => t.last_node(),
        }
    }

    /// The list obtained by replacing the terminal node of `self` with
    /// `node`.
    pub open spec fn graft_last(self, node: Self) -> Self
        decreases self,
    {
        match self.tail {
            None => node,
            Some(t) => List { head: self.head, tail: Some(Box::new(t.graft_last(node))) },
        }
    }

    /// In a well-formed list the terminal node is well-formed, and it
    /// holds exactly the last element (or nothing, for an empty list).
    pub proof fn lemma_last_node(self)
        requires
            self.wf(),
        ensures
            self.last_node().wf(),
            self.last_node().tail is None,
            self@.len() == 0 ==> self.last_node() == self,
            self@.len() > 0 ==> self.last_node()@ == seq![self@.last()],
        decreases self,
    {
        if let Some(t) = self.tail {
            t.lemma_last_node();
            assert(t.elems().len() > 0);
            assert(self.elems() == seq![self.head.unwrap()] + t.elems());
        }
    }

    /// Replacing the terminal node rewrites the sequence of elements:
    /// the last element goes, the replacement's elements come in its
    /// stead; well-formedness is kept as long as the replacement is a
    /// non-empty well-formed list (or the whole list is replaced).
    pub proof fn lemma_graft_last(self, node: Self)
        requires
            self.wf(),
        ensures
            self.tail is None ==> self.graft_last(node) == node,
            self.tail is Some ==> self.graft_last(node)@ == self@.drop_last() + node@,
            self.tail is Some && node.wf() && node.head is Some ==> self.graft_last(node).wf(),
        decreases self,
    {
        if let Some(t) = self.tail {
            t.lemma_graft_last(node);
            t.lemma_last_node();
            let g = self.graft_last(node);
            assert(t.elems().len() > 0);
            assert(self.elems() == seq![self.head.unwrap()] + t.elems());
            if t.tail is None {
                assert(g.elems() == seq![self.head.unwrap()] + node.elems());
                assert(t.elems() == seq![t.head.unwrap()]);
                assert(self.elems().drop_last() =~= seq![self.head.unwrap()]);
                assert(g.elems() =~= self.elems().drop_last() + node.elems());
            } else {
                assert(g.elems() == seq![self.head.unwrap()] + t.graft_last(node).elems());
                assert(g.elems() =~= self.elems().drop_last() + node.elems());
            }
        }
    }

    /// A node holds no element exactly when its element sequence is
    /// empty (well-formedness is not needed for this).
    pub proof fn lemma_empty_iff_no_head(self)
        ensures
            self.head is None <==> self@.len() == 0,
    {
        if self.head is Some && self.tail is Some {
            assert(self@ == seq![self.head.unwrap()] + self.tail.unwrap().elems());
        }
    }

    /// A well-formed list is determined by its element sequence: two
    /// well-formed lists with the same elements are the same value.
    pub proof fn lemma_wf_elems_unique(a: Self, b: Self)
        requires
            a.wf(),
            b.wf(),
            a@ == b@,
        ensures
            a == b,
        decreases a,
    {
        if a.head is None || b.head is None {
            a.lemma_empty_iff_no_head();
            b.lemma_empty_iff_no_head();
            assert(a.head is None && b.head is None);
            assert(a.tail is None && b.tail is None);
            assert(a == b);
        } else {
            match (a.tail, b.tail) {
                (None, None) => {
                    assert(a@ == seq![a.head.unwrap()]);
                    assert(b@ == seq![b.head.unwrap()]);
                    assert(a.head.unwrap() == b.head.unwrap()) by {
                        assert(seq![a.head.unwrap()][0] == a.head.unwrap());
                        assert(seq![b.head.unwrap()][0] == b.head.unwrap());
                        assert(a@[0] == b@[0]);
                    }
                },
                (Some(ta), Some(tb)) => {
                    assert(a@ == seq![a.head.unwrap()] + ta.elems());
                    assert(b@ == seq![b.head.unwrap()] + tb.elems());
                    assert(a@[0] == b@[0]);
                    assert(a.head.unwrap() == b.head.unwrap()) by {
                        assert((seq![a.head.unwrap()] + ta.elems())[0] == a.head.unwrap());
                        assert((seq![b.head.unwrap()] + tb.elems())[0] == b.head.unwrap());
                    }
                    assert(ta.elems() =~= a@.drop_first());
                    assert(tb.elems() =~= b@.drop_first());
                    Self::lemma_wf_elems_unique(*ta, *tb);
                    assert(*ta == *tb);
                    assert(a.tail == b.tail);
                    assert(a == b);
                },
                (Some(ta), None) => {
                    assert(ta.elems().len() > 0);
                    assert(a@.len() > 1 && b@.len() == 1);
                },
                (None, Some(tb)) => {
                    assert(tb.elems().len() > 0);
                    assert(a@.len() == 1 && b@.len() > 1);
                },
            }
        }
    }

    /// Prepends `element` as the new front of the list, demoting the
    /// previous contents into an owned successor node — unless the
    /// list was empty, in which case no successor node is created.
    /// Returns a mutable reference to the list for chaining.
    pub fn push(&mut self, element: T) -> (ret: &mut Self)
        requires
            old(self).wf(),
        ensures
            (*ret).wf(),
            (*ret)@ == seq![element] + old(self)@,
            *final(self) == *final(ret),
    {
        let head = self.head.take();
        let tail = self.tail.take();

        self.head = Some(element);
        if head.is_some() || tail.is_some() {
            self.tail = Some(Box::new(List { head, tail }));
        }
        proof {
            assert((*self)@ =~= seq![element] + old(self)@);
        }
        self
    }

    /// Removes and returns the front element, absorbing the successor
    /// node (if any) into the root.  Returns `None` on an empty list.
    pub fn pop(&mut self) -> (r: Option<T>)
        requires
            old(self).wf(),
        ensures
            final(self).wf(),
            old(self)@.len() == 0 ==> r is None && *final(self) == *old(self),
            old(self)@.len() > 0 ==> (r == Some(old(self)@[0]) && final(self)@ == old(
                self,
            )@.drop_first()),
    {
        let head = self.head.take();
        match self.tail.take() {
            None => {},
            Some(list) => {
                let node = *list;
                self.head = node.head;
                self.tail = node.tail;
            },
        }
        proof {
            if old(self).elems().len() > 0 {
                assert(final(self).elems() =~= old(self).elems().drop_first());
            }
        }
        head
    }

    /// Walks to the terminal node of the chain and returns a reference
    /// to it.
    pub fn last(&self) -> (r: &Self)
        requires
            self.wf(),
        ensures
            *r == self.last_node(),
            r.wf(),
            self@.len() == 0 ==> *r == *self,
            self@.len() > 0 ==> r@ == seq![self@.last()],
    {
        let mut pointer: &Self = self;
        loop
            invariant
                self.wf(),
                pointer.wf(),
                pointer.last_node() == self.last_node(),
            decreases *pointer,
        {
            proof {
                self.lemma_last_node();
            }
            if pointer.is_leaf() {
                return pointer;
            }
            match &pointer.tail {
                None => {
                    return pointer;
                },
                Some(list) => {
                    proof {
                        assert(pointer.last_node() == list.last_node());
                    }
                    pointer = &**list;
                },
            }
        }
    }

    /// Walks to the terminal node of the chain and returns a mutable
    /// reference to it.  Whatever the caller writes through the
    /// reference replaces the terminal node in the list.
    pub fn last_mut(&mut self) -> (ret: &mut Self)
        requires
            old(self).wf(),
        ensures
            *ret == old(self).last_node(),
            *final(self) == old(self).graft_last(*final(ret)),
        decreases *old(self),
    {
        let pointer = self;
        if pointer.is_leaf() || pointer.is_empty() {
            pointer
        } else {
            let ret = pointer.tail.as_mut().unwrap().last_mut();
            proof {
                assert(old(self).tail is Some);
                assert(old(self).last_node() == old(self).tail.unwrap().last_node());
                assert(old(self).graft_last(*final(ret)) == List {
                    head: old(self).head,
                    tail: Some(Box::new(old(self).tail.unwrap().graft_last(*final(ret)))),
                });
            }
            ret
        }
    }

    /// The number of elements reachable from this node, counting the
    /// node itself when non-empty.
    pub fn depth(&self) -> (r: usize)
        requires
            self.wf(),
            self@.len() <= usize::MAX,
        ensures
            r == self@.len(),
    {
        let mut d: usize = 0;
        let mut list: &Self = self;

        while !list.is_empty() && !list.is_leaf()
            invariant
                list.wf(),
                d + list@.len() == self@.len(),
                self@.len() <= usize::MAX,
            decreases list@.len(),
        {
            let t = list.tail.as_ref().unwrap();
            proof {
                assert(list.elems() == seq![list.head.unwrap()] + t.elems());
            }
            list = &**t;
            d = d + 1;
        }
        if !list.is_empty() {
            d = d + 1;
        }
        d
    }

    /// A reference to the element slot at the given zero-based
    /// position; positions past the end of the chain yield `None`.
    pub fn at(&self, index: usize) -> (r: &Option<T>)
        requires
            self.wf(),
        ensures
            index < self@.len() ==> *r == Some(self@[index as int]),
            index >= self@.len() ==> *r is None,
        decreases *self,
    {
        if index == 0 {
            &self.head
        } else {
            match &self.tail {
                None => &None,
                Some(list) => {
                    proof {
                        assert(self.elems() == seq![self.head.unwrap()] + list.elems());
                    }
                    list.at(index - 1)
                },
            }
        }
    }

    /// Attaches `element` at the back: directly into the element slot
    /// when the list is empty, otherwise as a fresh leaf owned by the
    /// terminal node.  Returns a mutable reference to the list for
    /// chaining.
    pub fn append(&mut self, element: T) -> (ret: &mut Self)
        requires
            old(self).wf(),
        ensures
            (*ret).wf(),
            (*ret)@ == old(self)@ + seq![element],
            *final(self) == *final(ret),
    {
        if self.is_empty() {
            self.head = Some(element);
            proof {
                assert((*self)@ =~= old(self)@ + seq![element]);
            }
        } else {
            let last = self.last_mut();
            last.tail = Some(Box::new(List::leaf(element)));
            proof {
                old(self).lemma_last_node();
                old(self).lemma_graft_last(*final(last));
                assert((*self)@ =~= old(self)@ + seq![element]);
            }
        }
        self
    }
}

} // verus!
