//! List-level surgery: positional insertion, splitting, splicing, and
//! the by-value combination operations used to build lists by
//! chaining.

use crate::list::List;
use vstd::prelude::*;

verus! {

impl<T> List<T> {
    /// Detaches and returns the sub-list that begins at position
    /// `index`, truncating this list just before it.  Asking to split
    /// at the boundary (`index == 0`) or at or past the end leaves the
    /// list untouched and yields `None`.
    pub fn split(&mut self, index: usize) -> (r: Option<Box<Self>>)
        requires
            old(self).wf(),
            old(self)@.len() <= usize::MAX,
        ensures
            final(self).wf(),
            1 <= index < old(self)@.len() ==> (r matches Some(b) && b.wf() && b@ == old(
                self,
            )@.skip(index as int)),
            1 <= index < old(self)@.len() ==> final(self)@ == old(self)@.take(index as int),
            !(1 <= index < old(self)@.len()) ==> r is None && *final(self) == *old(self),
        decreases *old(self),
    {
        if index == 0 || index >= self.depth() {
            return None;
        }
        if index == 1 {
            let r = self.tail.take();
            proof {
                let t = old(self).tail.unwrap();
                assert(old(self)@ == seq![old(self).head.unwrap()] + t@);
                assert(t@ =~= old(self)@.skip(1));
                assert(final(self)@ =~= old(self)@.take(1));
            }
            r
        } else {
            let mut boxed = self.tail.take().unwrap();
            let r = (&mut *boxed).split(index - 1);
            proof {
                let t = old(self).tail.unwrap();
                assert(old(self)@ == seq![old(self).head.unwrap()] + t@);
                assert(boxed@ == t@.take(index - 1));
                assert(boxed@.len() > 0);
                if boxed.head is None {
                    assert(boxed@.len() == 0);
                }
            }
            self.tail = Some(boxed);
            proof {
                assert(final(self)@ =~= old(self)@.take(index as int));
                assert(r.unwrap()@ =~= old(self)@.skip(index as int));
            }
            r
        }
    }

    /// Attaches the whole chain of `other` after this list's terminal
    /// node, consuming `other`.  Returns a mutable reference to the
    /// list for chaining.
    pub fn splice(&mut self, other: Self) -> (ret: &mut Self)
        requires
            old(self).wf(),
            other.wf(),
        ensures
            (*ret).wf(),
            (*ret)@ == old(self)@ + other@,
            *final(self) == *final(ret),
    {
        if other.is_empty() {
            proof {
                assert(old(self)@ + other@ =~= old(self)@);
            }
            return self;
        }
        if self.is_empty() {
            let List { head, tail } = other;
            self.head = head;
            self.tail = tail;
            proof {
                assert(old(self)@ + other@ =~= other@);
            }
            return self;
        }
        let last = self.last_mut();
        last.tail = Some(Box::new(other));
        proof {
            old(self).lemma_last_node();
            if old(self).last_node().head is None {
                assert(old(self).last_node()@.len() == 0);
            }
            old(self).lemma_graft_last(*final(last));
            assert(final(last)@ == seq![old(self)@.last()] + other@);
            assert((*self)@ =~= old(self)@ + other@);
        }
        self
    }

    /// Prepends the whole chain of `other` before this list's
    /// contents, consuming `other`; the original elements keep their
    /// order after it.  Returns a mutable reference to the list for
    /// chaining.
    pub fn splice_before(&mut self, other: Self) -> (ret: &mut Self)
        requires
            old(self).wf(),
            other.wf(),
        ensures
            (*ret).wf(),
            (*ret)@ == other@ + old(self)@,
            *final(self) == *final(ret),
    {
        let saved = List { head: self.head.take(), tail: self.tail.take() };
        let List { head, tail } = other;
        self.head = head;
        self.tail = tail;
        self.splice(saved)
    }

    /// Inserts `element` at the given zero-based position: position 0
    /// prepends, positions at or past the end append, and anything in
    /// between splits the chain at the position, appends the element
    /// to the left part and splices the right part back on.
    pub fn insert_at(&mut self, index: usize, element: T)
        requires
            old(self).wf(),
            old(self)@.len() < usize::MAX,
        ensures
            final(self).wf(),
            index <= old(self)@.len() ==> final(self)@ == old(self)@.insert(index as int, element),
            index > old(self)@.len() ==> final(self)@ == old(self)@ + seq![element],
    {
        if index == 0 {
            self.push(element);
            proof {
                assert((*self)@ =~= old(self)@.insert(0, element));
            }
        } else if index >= self.depth() {
            self.append(element);
            proof {
                if index <= old(self)@.len() {
                    assert((*self)@ =~= old(self)@.insert(index as int, element));
                }
            }
        } else {
            let right = self.split(index);
            self.append(element);
            let right_list = *right.unwrap();
            self.splice(right_list);
            proof {
                assert((*self)@ =~= old(self)@.insert(index as int, element));
            }
        }
    }

    /// Prepend-combine with a bare element: consumes the list and
    /// returns it with `element` pushed onto the front.
    pub fn prepend_element(self, element: T) -> (r: Self)
        requires
            self.wf(),
        ensures
            r.wf(),
            r@ == seq![element] + self@,
    {
        let mut list = self;
        list.push(element);
        list
    }

    /// Prepend-combine with another list: consumes both and returns
    /// `other` followed by this list's contents.
    pub fn prepend_list(self, other: Self) -> (r: Self)
        requires
            self.wf(),
            other.wf(),
        ensures
            r.wf(),
            r@ == other@ + self@,
    {
        let mut list = self;
        list.splice_before(other);
        list
    }

    /// Append-combine with a bare element: consumes the list and
    /// returns it with `element` attached at the back.
    pub fn append_element(self, element: T) -> (r: Self)
        requires
            self.wf(),
        ensures
            r.wf(),
            r@ == self@ + seq![element],
    {
        let mut list = self;
        list.append(element);
        list
    }

    /// Append-combine with another list: consumes both and returns
    /// this list's contents followed by `other`.
    pub fn append_list(self, other: Self) -> (r: Self)
        requires
            self.wf(),
            other.wf(),
        ensures
            r.wf(),
            r@ == self@ + other@,
    {
        let mut list = self;
        list.splice(other);
        list
    }
}

} // verus!
