use onnx_ir_core::linked_list::DoublyLinkedList;

fn collect(list: &DoublyLinkedList<i32>) -> Vec<i32> {
    let mut out = Vec::new();
    let mut it = list.iter();
    while let Some(x) = it.next(list) {
        out.push(*x);
    }
    out
}

#[test]
fn test_doubly_linked_list_basic() {
    let mut list = DoublyLinkedList::new();

    assert!(list.is_empty());
    assert_eq!(list.len(), 0);

    list.push_back(1);
    list.push_back(2);
    list.push_back(3);

    assert_eq!(list.len(), 3);
    assert_eq!(list.front(), Some(&1));
    assert_eq!(list.back(), Some(&3));
}

#[test]
fn test_doubly_linked_list_push_front() {
    let mut list = DoublyLinkedList::new();

    list.push_front(1);
    list.push_front(2);
    list.push_front(3);

    assert_eq!(list.len(), 3);
    assert_eq!(list.front(), Some(&3));
    assert_eq!(list.back(), Some(&1));
}

#[test]
fn test_doubly_linked_list_pop() {
    let mut list = DoublyLinkedList::new();

    list.push_back(1);
    list.push_back(2);
    list.push_back(3);

    assert_eq!(list.pop_front(), Some(1));
    assert_eq!(list.pop_back(), Some(3));
    assert_eq!(list.pop_front(), Some(2));
    assert_eq!(list.pop_front(), None);

    assert!(list.is_empty());
}

#[test]
fn test_doubly_linked_list_iter() {
    let mut list = DoublyLinkedList::new();

    list.push_back(1);
    list.push_back(2);
    list.push_back(3);

    let collected: Vec<i32> = collect(&list);
    assert_eq!(collected, vec![1, 2, 3]);
}

#[test]
fn test_doubly_linked_list_clear() {
    let mut list = DoublyLinkedList::new();

    list.push_back(1);
    list.push_back(2);
    list.push_back(3);

    list.clear();

    assert!(list.is_empty());
    assert_eq!(list.len(), 0);
}

#[test]
fn empty_list_has_no_ends() {
    let mut list: DoublyLinkedList<i32> = DoublyLinkedList::new();
    assert_eq!(list.front(), None);
    assert_eq!(list.back(), None);
    assert_eq!(list.pop_back(), None);
    assert_eq!(list.pop_front(), None);
    assert_eq!(list.len(), 0);
}

#[test]
fn pushes_and_pops_keep_count_and_ends() {
    let mut list = DoublyLinkedList::new();
    list.push_back(2);
    list.push_front(1);
    list.push_back(3);
    assert_eq!(list.len(), 3);
    assert_eq!(list.pop_front(), Some(1));
    list.push_back(4);
    assert_eq!(list.len(), 3);
    assert_eq!(list.front(), Some(&2));
    assert_eq!(list.back(), Some(&4));
    assert_eq!(collect(&list), vec![2, 3, 4]);
}

#[test]
fn insertion_after_the_cursor_is_visited() {
    let mut list = DoublyLinkedList::new();
    list.push_back(1);
    list.push_back(2);
    list.push_back(3);
    let mut it = list.iter();
    assert_eq!(it.next(&list), Some(&1));
    let here = it.link();
    list.insert_after(here, 10);
    let mut seen = Vec::new();
    while let Some(x) = it.next(&list) {
        seen.push(*x);
    }
    assert_eq!(seen, vec![10, 2, 3]);
}

#[test]
fn insertion_before_the_cursor_is_not_visited() {
    let mut list = DoublyLinkedList::new();
    list.push_back(1);
    list.push_back(2);
    list.push_back(3);
    let mut it = list.iter();
    assert_eq!(it.next(&list), Some(&1));
    assert_eq!(it.next(&list), Some(&2));
    let here = it.link();
    list.insert_before(here, 20);
    list.push_front(0);
    let mut seen = Vec::new();
    while let Some(x) = it.next(&list) {
        seen.push(*x);
    }
    assert_eq!(seen, vec![3]);
    assert_eq!(collect(&list), vec![0, 1, 20, 2, 3]);
}

#[test]
fn removal_during_traversal_is_skipped() {
    let mut list = DoublyLinkedList::new();
    list.push_back(1);
    list.push_back(2);
    list.push_back(3);
    list.push_back(4);
    let mut it = list.iter();
    assert_eq!(it.next(&list), Some(&1));
    let one = it.link();
    assert_eq!(it.next(&list), Some(&2));
    let two = it.link();
    // remove the current element and the one before it
    assert_eq!(list.remove(two), Some(2));
    assert_eq!(list.remove(one), Some(1));
    assert_eq!(list.remove(one), None);
    assert_eq!(it.next(&list), Some(&3));
    assert_eq!(list.pop_back(), Some(4));
    assert_eq!(it.next(&list), None);
    assert_eq!(collect(&list), vec![3]);
}

#[test]
fn appending_at_the_end_extends_a_finished_traversal() {
    let mut list = DoublyLinkedList::new();
    list.push_back(1);
    let mut it = list.iter();
    assert_eq!(it.next(&list), Some(&1));
    assert_eq!(it.next(&list), None);
    list.push_back(5);
    assert_eq!(it.next(&list), Some(&5));
}

#[test]
fn links_give_elements() {
    let mut list = DoublyLinkedList::new();
    let a = list.insert_before(0, 7);
    let b = list.insert_after(a, 8);
    assert!(list.is_linked(a));
    assert_eq!(list.get(b), Some(&8));
    *list.get_mut(a) = 9;
    assert_eq!(collect(&list), vec![9, 8]);
    list.remove(a);
    assert!(!list.is_linked(a));
    assert_eq!(list.get(a), None);
}
