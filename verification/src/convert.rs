//! Building a list from a flat ordered sequence of values.

use crate::list::List;
use vstd::prelude::*;

verus! {

impl<T> List<T> {
    /// The list value holding exactly the elements of `s`, in order.
    pub open spec fn of_seq(s: Seq<T>) -> List<T>
        decreases s.len(),
    {
        if s.len() == 0 {
            List { head: None, tail: None }
        } else if s.len() == 1 {
            List { head: Some(s[0]), tail: None }
        } else {
            List { head: Some(s[0]), tail: Some(Box::new(List::of_seq(s.drop_first()))) }
        }
    }

    /// `of_seq` yields a well-formed list whose element sequence is
    /// the given sequence.
    pub proof fn lemma_of_seq(s: Seq<T>)
        ensures
            List::of_seq(s).wf(),
            List::of_seq(s)@ == s,
        decreases s.len(),
    {
        if s.len() > 1 {
            Self::lemma_of_seq(s.drop_first());
            assert(List::of_seq(s)@ == seq![s[0]] + s.drop_first());
            assert(List::of_seq(s)@ =~= s);
        } else if s.len() == 1 {
            assert(List::of_seq(s)@ =~= s);
        } else {
            assert(List::of_seq(s)@ =~= s);
        }
    }
}

impl<T: Copy> vstd::std_specs::convert::FromSpecImpl<Vec<T>> for List<T> {
    open spec fn obeys_from_spec() -> bool {
        true
    }

    open spec fn from_spec(v: Vec<T>) -> List<T> {
        List::of_seq(v@)
    }
}

impl<T: Copy> From<Vec<T>> for List<T> {
    /// Builds a list by appending the vector's elements in forward
    /// order, so that the list's positional order matches the input
    /// exactly.
    fn from(input: Vec<T>) -> (r: Self) {
        let mut list: Self = List { head: None, tail: None };
        let mut idx: usize = 0;
        while idx < input.len()
            invariant
                idx <= input@.len(),
                list.wf(),
                list@ == input@.take(idx as int),
            decreases input@.len() - idx,
        {
            let element = input[idx];
            list.append(element);
            idx = idx + 1;
            proof {
                assert(list@ =~= input@.take(idx as int));
            }
        }
        proof {
            assert(list@ =~= input@);
            List::lemma_of_seq(input@);
            List::lemma_wf_elems_unique(list, List::of_seq(input@));
        }
        list
    }
}

} // verus!
