//! General laws of the list algebra, stated and proved over the same
//! sequence abstraction that the operations' contracts use.

use crate::compare::elems_match;
use crate::list::List;
use vstd::prelude::*;
use vstd::std_specs::cmp::PartialEqSpec;

verus! {

/// The element sequence built by append-combining the elements of `es`
/// in order, starting from the empty list: each step extends the
/// previous result at the back, exactly as `append_element`'s contract
/// says.
pub open spec fn appended_all<T>(es: Seq<T>) -> Seq<T>
    decreases es.len(),
{
    if es.len() == 0 {
        Seq::empty()
    } else {
        appended_all(es.drop_last()) + seq![es.last()]
    }
}

/// The element sequence built by prepend-combining the elements of
/// `es` in order, starting from the empty list: each step pushes the
/// next element onto the front of the previous result, exactly as
/// `prepend_element`'s contract says.
pub open spec fn prepended_all<T>(es: Seq<T>) -> Seq<T>
    decreases es.len(),
{
    if es.len() == 0 {
        Seq::empty()
    } else {
        seq![es.last()] + prepended_all(es.drop_last())
    }
}

/// Append-combining `k` bare elements starting from the empty list
/// builds exactly that sequence of elements — in particular the depth
/// of the result is `k`.
pub proof fn lemma_appended_all<T>(es: Seq<T>)
    ensures
        appended_all(es) == es,
    decreases es.len(),
{
    if es.len() > 0 {
        lemma_appended_all(es.drop_last());
    }
    assert(appended_all(es) =~= es);
}

/// Prepend-combining `k` bare elements starting from the empty list
/// builds the reverse of that sequence of elements — in particular the
/// depth of the result is also `k`.
pub proof fn lemma_prepended_all<T>(es: Seq<T>)
    ensures
        prepended_all(es) == es.reverse(),
        prepended_all(es).len() == es.len(),
    decreases es.len(),
{
    if es.len() > 0 {
        lemma_prepended_all(es.drop_last());
    }
    assert(prepended_all(es) =~= es.reverse());
}

/// The list built by append-combining elements in one order equals the
/// list built by prepend-combining the same elements in the opposite
/// order.
pub proof fn lemma_append_build_is_reverse_prepend_build<T>(es: Seq<T>)
    ensures
        appended_all(es) == prepended_all(es.reverse()),
{
    lemma_appended_all(es);
    lemma_prepended_all(es.reverse());
    assert(es.reverse().reverse() =~= es);
}

/// Pushing a value onto an empty list and then popping returns exactly
/// that value and leaves the list empty, by the contracts of `push`
/// and `pop`.
pub proof fn lemma_push_then_pop_on_empty<T>(v: T)
    ensures
        (seq![v] + Seq::<T>::empty())[0] == v,
        (seq![v] + Seq::<T>::empty()).drop_first() == Seq::<T>::empty(),
{
    assert((seq![v] + Seq::<T>::empty()).drop_first() =~= Seq::<T>::empty());
}

/// Inserting at position 0 changes the list exactly as `push` does,
/// and inserting at the list's depth changes it exactly as `append`
/// does.
pub proof fn lemma_insert_at_ends<T>(s: Seq<T>, v: T)
    ensures
        s.insert(0, v) == seq![v] + s,
        s.insert(s.len() as int, v) == s + seq![v],
{
    assert(s.insert(0, v) =~= seq![v] + s);
    assert(s.insert(s.len() as int, v) =~= s + seq![v]);
}

/// Splitting a list of depth `n` at `k` (with `0 < k < n`) leaves a
/// list of depth `k`, detaches one of depth `n - k`, and splicing the
/// detached part back restores the original element sequence exactly.
pub proof fn lemma_split_then_splice<T>(s: Seq<T>, k: int)
    requires
        0 < k < s.len(),
    ensures
        s.take(k).len() == k,
        s.skip(k).len() == s.len() - k,
        s.take(k) + s.skip(k) == s,
{
    assert(s.take(k) + s.skip(k) =~= s);
}

/// List equality is reflexive whenever the element type's equality
/// specification is reflexive.
pub proof fn lemma_equality_reflexive<T: PartialEq>(s: Seq<T>)
    requires
        forall|x: T| #[trigger] x.eq_spec(&x),
    ensures
        elems_match(s, s),
{
}

/// Lists of different depths are never equal, and lists whose elements
/// disagree at any position are never equal.
pub proof fn lemma_equality_discriminates<T: PartialEq>(a: Seq<T>, b: Seq<T>)
    ensures
        a.len() != b.len() ==> !elems_match(a, b),
        (exists|i: int| 0 <= i < a.len() && !(#[trigger] a[i].eq_spec(&b[i]))) ==> !elems_match(
            a,
            b,
        ),
{
}

/// A list built from a flat sequence reads back that sequence: every
/// position holds the source element and the depth is the source
/// length (`of_seq` is the builder that `From<Vec<T>>` is specified
/// by).
pub proof fn lemma_from_sequence_reads_back<T>(s: Seq<T>)
    ensures
        List::of_seq(s)@.len() == s.len(),
        forall|i: int| 0 <= i < s.len() ==> #[trigger] List::of_seq(s)@[i] == s[i],
{
    List::lemma_of_seq(s);
}

} // verus!
