use deet::linked_list::LinkedList;

#[test]
fn new_list_is_empty() {
    let list: LinkedList<u32> = LinkedList::new();
    assert!(list.is_empty());
    assert_eq!(list.get_size(), 0);
}

#[test]
fn push_and_pop_are_last_in_first_out() {
    let mut list: LinkedList<u32> = LinkedList::new();
    list.push_front(1);
    list.push_front(2);
    list.push_front(3);
    assert_eq!(list.get_size(), 3);
    assert!(!list.is_empty());
    assert_eq!(list.pop_front(), Some(3));
    assert_eq!(list.pop_front(), Some(2));
    assert_eq!(list.pop_front(), Some(1));
    assert_eq!(list.pop_front(), None);
    assert!(list.is_empty());
}

#[test]
fn pop_from_empty_list_changes_nothing() {
    let mut list: LinkedList<String> = LinkedList::new();
    assert_eq!(list.pop_front(), None);
    assert_eq!(list.get_size(), 0);
    list.push_front("x".to_string());
    assert_eq!(list.get_size(), 1);
    assert_eq!(list.pop_front(), Some("x".to_string()));
}

#[test]
fn clone_copies_every_value_in_order() {
    let mut list: LinkedList<u32> = LinkedList::new();
    list.push_front(1);
    list.push_front(2);
    list.push_front(3);
    let mut copy = list.clone();
    assert_eq!(copy.get_size(), 3);
    assert_eq!(copy.pop_front(), Some(3));
    assert_eq!(copy.pop_front(), Some(2));
    assert_eq!(copy.pop_front(), Some(1));
    // The original is untouched.
    assert_eq!(list.get_size(), 3);
}

#[test]
fn lists_compare_by_their_values() {
    let mut a: LinkedList<u32> = LinkedList::new();
    let mut b: LinkedList<u32> = LinkedList::new();
    assert!(a == b);
    a.push_front(1);
    assert!(a != b);
    b.push_front(1);
    assert!(a == b);
    a.push_front(2);
    b.push_front(3);
    assert!(a != b);
    let c = a.clone();
    assert!(a == c);
}
