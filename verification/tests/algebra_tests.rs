use owned_list::list::List;

#[test]
fn leaf_is_not_empty() {
    let list = List::leaf(7u32);
    assert!(!list.is_empty());
    assert!(list.is_leaf());
}

#[test]
fn pop_on_empty_is_none() {
    let mut list: List<u8> = List::default();
    assert_eq!(list.pop(), None);
    assert!(list.is_empty());
}

#[test]
fn split_at_boundary_is_none() {
    let mut list = List::leaf(1u16).append_element(2).append_element(3);
    assert!(list.split(0).is_none());
    assert_eq!(list.depth(), 3);
    assert!(list.split(3).is_none());
    assert!(list.split(7).is_none());
    assert_eq!(list.depth(), 3);
}

#[test]
fn split_then_splice_restores() {
    let mut list = List::leaf(10u64)
        .append_element(11)
        .append_element(12)
        .append_element(13)
        .append_element(14);
    let detached = *list.split(2).unwrap();
    assert_eq!(list.depth(), 2);
    assert_eq!(detached.depth(), 3);
    list.splice(detached);
    assert_eq!(list.depth(), 5);
    for i in 0..5usize {
        assert_eq!(list.at(i), &Some(10 + i as u64));
    }
    assert!(list.at(5).is_none());
}

#[test]
fn prepend_list_puts_other_first() {
    let base = List::leaf(3i64).append_element(4);
    let other = List::leaf(1i64).append_element(2);
    let combined = base.prepend_list(other);
    assert_eq!(combined.at(0), &Some(1));
    assert_eq!(combined.at(1), &Some(2));
    assert_eq!(combined.at(2), &Some(3));
    assert_eq!(combined.at(3), &Some(4));
    assert!(combined.at(4).is_none());
}

#[test]
fn append_list_puts_other_last() {
    let base = List::leaf(1i64).append_element(2);
    let other = List::leaf(3i64).append_element(4);
    let combined = base.append_list(other);
    assert_eq!(combined.at(0), &Some(1));
    assert_eq!(combined.at(1), &Some(2));
    assert_eq!(combined.at(2), &Some(3));
    assert_eq!(combined.at(3), &Some(4));
    assert!(combined.at(4).is_none());
}

#[test]
fn splice_with_empty_keeps_contents() {
    let mut list = List::leaf(5u32).append_element(6);
    list.splice(List::default());
    assert_eq!(list.depth(), 2);
    assert!(list.last().is_leaf());
    assert_eq!(list.at(0), &Some(5));
    assert_eq!(list.at(1), &Some(6));
    let mut empty: List<u32> = List::default();
    empty.splice(List::leaf(9));
    assert_eq!(empty.depth(), 1);
    assert_eq!(empty.at(0), &Some(9));
}

#[test]
fn list_equals_vec_positionally() {
    let list = List::leaf(1u8).append_element(2).append_element(3);
    assert_eq!(list, vec![1u8, 2, 3]);
    assert_ne!(list, vec![1u8, 2]);
    assert_ne!(list, vec![1u8, 2, 4]);
    assert_ne!(list, vec![1u8, 2, 3, 4]);
    let empty: List<u8> = List::default();
    assert_eq!(empty, Vec::<u8>::new());
    assert_ne!(empty, vec![1u8]);
}

#[test]
fn from_vec_matches_source_order() {
    let source = vec![0u64, 1, 2, 3];
    let list = List::from(source.clone());
    assert_eq!(list.depth(), source.len());
    for i in 0..source.len() {
        assert_eq!(list.at(i), &Some(source[i]));
    }
    assert_eq!(list, source);
}

#[test]
fn render_empty_list() {
    let list: List<u64> = List::default();
    assert_eq!(list.render(), "Empty");
}

#[test]
fn render_two_elements() {
    let list = List::leaf(1u64).append_element(2);
    assert_eq!(list.render(), "1::2::End");
}

#[test]
fn render_multi_digit_elements() {
    let list = List::leaf(10u64).append_element(0).append_element(205);
    assert_eq!(list.render(), "10::0::205::End");
}

#[test]
fn render_single_leaf() {
    let list = List::leaf(42u64);
    assert_eq!(list.render(), "42::End");
}
