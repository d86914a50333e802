//! Structural, element-wise equality between two lists, and positional
//! equality between a list and a flat vector.

use crate::list::List;
use vstd::prelude::*;
use vstd::std_specs::cmp::PartialEqSpec;

verus! {

/// Two element sequences agree position by position under the element
/// type's equality specification.
pub open spec fn elems_match<T: PartialEq>(a: Seq<T>, b: Seq<T>) -> bool {
    &&& a.len() == b.len()
    &&& forall|i: int| 0 <= i < a.len() ==> #[trigger] a[i].eq_spec(&b[i])
}

impl<T: PartialEq> List<T> {
    /// Structural recursive equality: the two nodes hold equal
    /// elements (or both none) and their successors are equal in turn.
    pub open spec fn eq_nodes(self, other: Self) -> bool
        decreases self,
    {
        &&& match (self.head, other.head) {
            (None, None) => true,
            (Some(a), Some(b)) => a.eq_spec(&b),
            _ => false,
        }
        &&& match (self.tail, other.tail) {
            (None, None) => true,
            (Some(a), Some(b)) => a.eq_nodes(*b),
            _ => false,
        }
    }

    /// On well-formed lists, structural equality is exactly positional
    /// equality of the element sequences.
    pub proof fn lemma_eq_nodes_is_elems_match(self, other: Self)
        requires
            self.wf(),
            other.wf(),
        ensures
            self.eq_nodes(other) == elems_match(self@, other@),
        decreases self,
    {
        match (self.tail, other.tail) {
            (Some(ta), Some(tb)) => {
                assert(ta.elems().len() > 0 && tb.elems().len() > 0);
                ta.lemma_eq_nodes_is_elems_match(*tb);
                assert(self@ == seq![self.head.unwrap()] + ta.elems());
                assert(other@ == seq![other.head.unwrap()] + tb.elems());
                assert(ta.elems() =~= self@.drop_first());
                assert(tb.elems() =~= other@.drop_first());
                if self.eq_nodes(other) {
                    assert forall|i: int| 0 <= i < self@.len() implies #[trigger] self@[i].eq_spec(
                        &other@[i],
                    ) by {
                        if i > 0 {
                            assert(ta.elems()[i - 1].eq_spec(&tb.elems()[i - 1]));
                        }
                    }
                } else {
                    if elems_match(self@, other@) {
                        assert(self@[0].eq_spec(&other@[0]));
                        assert forall|i: int| 0 <= i < ta.elems().len() implies #[trigger] ta.elems()[i].eq_spec(
                            &tb.elems()[i],
                        ) by {
                            assert(self@[i + 1].eq_spec(&other@[i + 1]));
                        }
                    }
                }
            },
            (None, None) => {
                self.lemma_empty_iff_no_head();
                other.lemma_empty_iff_no_head();
                match (self.head, other.head) {
                    (Some(ha), Some(hb)) => {
                        assert(self@ == seq![ha]);
                        assert(other@ == seq![hb]);
                        assert(self.eq_nodes(other) == ha.eq_spec(&hb));
                        if ha.eq_spec(&hb) {
                            assert(forall|i: int|
                                0 <= i < self@.len() ==> #[trigger] self@[i].eq_spec(&other@[i]));
                        } else {
                            if elems_match(self@, other@) {
                                assert(self@[0].eq_spec(&other@[0]));
                            }
                        }
                    },
                    (None, None) => {
                        assert(elems_match(self@, other@));
                    },
                    _ => {
                        assert(self@.len() != other@.len());
                    },
                }
            },
            (Some(ta), None) => {
                assert(ta.elems().len() > 0);
                assert(self@.len() > 1 && other@.len() <= 1);
            },
            (None, Some(tb)) => {
                assert(tb.elems().len() > 0);
                assert(self@.len() <= 1 && other@.len() > 1);
            },
        }
    }

    /// Recursive element-wise comparison of two lists.  On well-formed
    /// lists it decides positional equality of the element sequences.
    pub fn equals(&self, other: &Self) -> (r: bool)
        ensures
            T::obeys_eq_spec() ==> r == self.eq_nodes(*other),
            T::obeys_eq_spec() && self.wf() && other.wf() ==> r == elems_match(self@, other@),
        decreases *self,
    {
        proof {
            if self.wf() && other.wf() {
                self.lemma_eq_nodes_is_elems_match(*other);
            }
        }
        let heads_agree = match (&self.head, &other.head) {
            (None, None) => true,
            (Some(a), Some(b)) => *a == *b,
            _ => false,
        };
        if !heads_agree {
            return false;
        }
        match (&self.tail, &other.tail) {
            (None, None) => true,
            (Some(a), Some(b)) => a.equals(b),
            _ => false,
        }
    }

    /// Element-wise comparison of the list against a vector's elements
    /// from position `from` on.
    fn matches_from(&self, other: &Vec<T>, from: usize) -> (r: bool)
        requires
            from <= other@.len(),
        ensures
            T::obeys_eq_spec() ==> r == elems_match(self@, other@.skip(from as int)),
        decreases *self,
    {
        match (&self.head, &self.tail) {
            (None, _) => from == other.len(),
            (Some(h), None) => {
                proof {
                    assert(self@ == seq![self.head.unwrap()]);
                }
                if from == other.len() {
                    return false;
                }
                let len_ok = from + 1 == other.len();
                let head_ok = h == &other[from];
                proof {
                    if T::obeys_eq_spec() {
                        let b = other@.skip(from as int);
                        assert(b[0] == other@[from as int]);
                        if elems_match(self@, b) {
                            assert(self@[0].eq_spec(&b[0]));
                        }
                        if len_ok && head_ok {
                            assert forall|i: int| 0 <= i < self@.len() implies #[trigger] self@[i].eq_spec(
                                &b[i],
                            ) by {
                                assert(i == 0);
                            }
                        }
                    }
                }
                len_ok && head_ok
            },
            (Some(h), Some(t)) => {
                proof {
                    assert(self@ == seq![self.head.unwrap()] + t.elems());
                }
                if from == other.len() {
                    return false;
                }
                proof {
                    assert(other@.skip(from as int)[0] == other@[from as int]);
                }
                let head_ok = h == &other[from];
                if !head_ok {
                    proof {
                        if T::obeys_eq_spec() {
                            let b = other@.skip(from as int);
                            assert(b[0] == other@[from as int]);
                            if elems_match(self@, b) {
                                assert(self@[0].eq_spec(&b[0]));
                            }
                        }
                    }
                    return false;
                }
                let r = t.matches_from(other, from + 1);
                proof {
                    if T::obeys_eq_spec() {
                        let a = self@;
                        let b = other@.skip(from as int);
                        assert(t.elems() =~= a.drop_first());
                        assert(other@.skip(from + 1 as int) =~= b.drop_first());
                        if r {
                            assert forall|i: int| 0 <= i < a.len() implies #[trigger] a[i].eq_spec(
                                &b[i],
                            ) by {
                                if i > 0 {
                                    assert(a.drop_first()[i - 1].eq_spec(&b.drop_first()[i - 1]));
                                }
                            }
                        } else {
                            if elems_match(a, b) {
                                assert forall|i: int|
                                    0 <= i < a.drop_first().len() implies #[trigger] a.drop_first()[i].eq_spec(
                                    &b.drop_first()[i],
                                ) by {
                                    assert(a[i + 1].eq_spec(&b[i + 1]));
                                }
                            }
                        }
                    }
                }
                r
            },
        }
    }
}

impl<T: PartialEq> vstd::std_specs::cmp::PartialEqSpecImpl for List<T> {
    open spec fn obeys_eq_spec() -> bool {
        T::obeys_eq_spec()
    }

    open spec fn eq_spec(&self, other: &List<T>) -> bool {
        self.eq_nodes(*other)
    }
}

impl<T: PartialEq> PartialEq for List<T> {
    /// Structural, recursive, element-wise equality of two lists.
    fn eq(&self, other: &Self) -> (r: bool) {
        self.equals(other)
    }
}

impl<T: PartialEq> vstd::std_specs::cmp::PartialEqSpecImpl<Vec<T>> for List<T> {
    open spec fn obeys_eq_spec() -> bool {
        T::obeys_eq_spec()
    }

    open spec fn eq_spec(&self, other: &Vec<T>) -> bool {
        elems_match(self@, other@)
    }
}

impl<T: PartialEq> PartialEq<Vec<T>> for List<T> {
    /// A list equals a vector exactly when the lengths agree and the
    /// elements agree position by position.
    fn eq(&self, other: &Vec<T>) -> (r: bool) {
        let r = self.matches_from(other, 0);
        proof {
            if T::obeys_eq_spec() {
                assert(other@.skip(0) =~= other@);
            }
        }
        r
    }
}

} // verus!
