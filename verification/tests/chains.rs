use linked_list::list::{List, Node};

fn chain_payloads(node: &Node<i32>) -> Vec<i32> {
    let mut out = vec![*node.data()];
    let mut cur = node;
    while let Some(rest) = cur.next() {
        out.push(*rest.data());
        cur = rest;
    }
    out
}

fn payloads(list: &List<i32>) -> Vec<i32> {
    match list.first() {
        None => vec![],
        Some(node) => chain_payloads(node),
    }
}

fn list_of(items: &[i32]) -> List<i32> {
    let mut list = List::new();
    for item in items {
        list.append(List::single(*item));
    }
    list
}

fn chain_of(first: i32, rest: &[i32]) -> Node<i32> {
    let mut node = Node::new(first);
    for item in rest {
        node.append(Node::new(*item));
    }
    node
}

#[test]
fn node_append_moves_the_whole_chain() {
    let mut node = chain_of(1, &[2]);
    node.append(chain_of(3, &[4, 5]));
    assert_eq!(chain_payloads(&node), vec![1, 2, 3, 4, 5]);
    assert_eq!(node.length(), 5);
}

#[test]
fn node_prepend_takes_only_the_first_link() {
    let mut node = chain_of(3, &[4]);
    node.prepend(chain_of(1, &[2]));
    assert_eq!(chain_payloads(&node), vec![1, 3, 4]);
}

#[test]
fn node_last_is_a_chain_of_one() {
    let node = chain_of(1, &[2, 3]);
    let tail = node.last();
    assert_eq!(*tail.data(), 3);
    assert!(tail.next().is_none());
    assert_eq!(tail.length(), 1);
}

#[test]
fn node_last_mut_writes_behind_the_chain() {
    let mut node = chain_of(1, &[2, 3]);
    {
        let tail = node.last_mut();
        assert_eq!(*tail.data(), 3);
        tail.append(Node::new(4));
    }
    assert_eq!(chain_payloads(&node), vec![1, 2, 3, 4]);
    node.last_mut().prepend(Node::new(9));
    assert_eq!(chain_payloads(&node), vec![1, 2, 3, 9, 4]);
}

#[test]
fn node_next_is_the_rest_of_the_chain() {
    let node = chain_of(1, &[2, 3]);
    let rest = node.next().unwrap();
    assert_eq!(chain_payloads(rest), vec![2, 3]);
    assert!(rest.next().unwrap().next().is_none());
}

#[test]
fn node_drop_head_refuses_a_single_link() {
    let mut node = Node::new(7);
    assert!(node.drop_head().is_none());
    assert_eq!(chain_payloads(&node), vec![7]);
}

#[test]
fn node_drop_head_detaches_the_front() {
    let mut node = chain_of(1, &[2, 3]);
    let head = node.drop_head().unwrap();
    assert_eq!(chain_payloads(&head), vec![1]);
    assert_eq!(chain_payloads(&node), vec![2, 3]);
    let head = node.drop_head().unwrap();
    assert_eq!(chain_payloads(&head), vec![2]);
    assert_eq!(chain_payloads(&node), vec![3]);
    assert!(node.drop_head().is_none());
    assert_eq!(chain_payloads(&node), vec![3]);
}

#[test]
fn node_reverse_in_place() {
    let mut node = chain_of(1, &[2, 3, 4]);
    node.reverse();
    assert_eq!(chain_payloads(&node), vec![4, 3, 2, 1]);
    let mut two = chain_of(1, &[2]);
    two.reverse();
    assert_eq!(chain_payloads(&two), vec![2, 1]);
    let mut one = Node::new(5);
    one.reverse();
    assert_eq!(chain_payloads(&one), vec![5]);
}

#[test]
fn new_list_is_empty() {
    let list: List<i32> = List::new();
    assert_eq!(list.length(), 0);
    assert!(list.first().is_none());
    assert!(list.last().is_none());
    assert_eq!(list.render(), "<Empty>");
}

#[test]
fn single_holds_one_element() {
    let list = List::single(5);
    assert_eq!(list.length(), 1);
    assert_eq!(payloads(&list), vec![5]);
    assert_eq!(*list.first().unwrap().data(), 5);
    assert_eq!(*list.last().unwrap().data(), 5);
}

#[test]
fn length_is_zero_only_for_the_empty_list() {
    let mut list = list_of(&[1, 2]);
    assert_eq!(list.length(), 2);
    list.drop_head();
    assert_eq!(list.length(), 1);
    assert!(list.first().is_some());
    list.drop_head();
    assert_eq!(list.length(), 0);
    assert!(list.first().is_none());
}

#[test]
fn append_single_adds_one() {
    let mut list = list_of(&[1, 2, 3]);
    let before = list.length();
    list.append(List::single(9));
    assert_eq!(list.length(), before + 1);
    assert_eq!(payloads(&list), vec![1, 2, 3, 9]);
}

#[test]
fn append_to_empty_takes_the_other_list() {
    let mut list = List::new();
    list.append(list_of(&[1, 2]));
    assert_eq!(payloads(&list), vec![1, 2]);
}

#[test]
fn append_of_empty_changes_nothing() {
    let mut list = list_of(&[1, 2]);
    list.append(List::new());
    assert_eq!(payloads(&list), vec![1, 2]);
    let mut empty: List<i32> = List::new();
    empty.append(List::new());
    assert_eq!(empty.length(), 0);
}

#[test]
fn append_sets_last_and_keeps_first() {
    let mut list = list_of(&[1, 2]);
    list.append(list_of(&[3, 4, 5]));
    assert_eq!(payloads(&list), vec![1, 2, 3, 4, 5]);
    assert_eq!(*list.first().unwrap().data(), 1);
    assert_eq!(*list.last().unwrap().data(), 5);
}

#[test]
fn prepend_sets_first_and_keeps_last() {
    let mut list = list_of(&[4, 5]);
    list.prepend(list_of(&[1, 2, 3]));
    assert_eq!(payloads(&list), vec![1, 2, 3, 4, 5]);
    assert_eq!(*list.first().unwrap().data(), 1);
    assert_eq!(*list.last().unwrap().data(), 5);
}

#[test]
fn prepend_to_empty_and_of_empty() {
    let mut list = List::new();
    list.prepend(list_of(&[1, 2]));
    assert_eq!(payloads(&list), vec![1, 2]);
    list.prepend(List::new());
    assert_eq!(payloads(&list), vec![1, 2]);
}

#[test]
fn first_is_the_whole_chain_and_last_has_no_successor() {
    let list = list_of(&[1, 2, 3]);
    assert_eq!(chain_payloads(list.first().unwrap()), vec![1, 2, 3]);
    assert_eq!(chain_payloads(list.last().unwrap()), vec![3]);
}

#[test]
fn drop_head_on_empty_gives_nothing() {
    let mut list: List<i32> = List::new();
    assert!(list.drop_head().is_none());
    assert_eq!(list.length(), 0);
    assert!(list.drop_head().is_none());
    assert_eq!(list.length(), 0);
}

#[test]
fn drop_head_gives_a_list_of_one() {
    let mut list = list_of(&[1, 2, 3]);
    let head = list.drop_head().unwrap();
    assert_eq!(payloads(&head), vec![1]);
    assert_eq!(head.length(), 1);
    assert_eq!(payloads(&list), vec![2, 3]);
}

#[test]
fn drop_head_drains_in_order() {
    let items = [5, 1, 4, 2, 3];
    let mut list = list_of(&items);
    let count = list.length();
    let mut dropped = Vec::new();
    for _ in 0..count {
        let head = list.drop_head().unwrap();
        dropped.push(*head.first().unwrap().data());
    }
    assert_eq!(dropped, items.to_vec());
    assert_eq!(list.length(), 0);
    assert!(list.first().is_none());
    assert!(list.drop_head().is_none());
}

#[test]
fn reverse_twice_is_identity() {
    let mut list = list_of(&[1, 2, 3, 4, 5]);
    list.reverse();
    assert_eq!(payloads(&list), vec![5, 4, 3, 2, 1]);
    list.reverse();
    assert_eq!(payloads(&list), vec![1, 2, 3, 4, 5]);
}

#[test]
fn reverse_keeps_length() {
    let mut list = list_of(&[1, 2, 3, 4, 5, 6]);
    list.reverse();
    assert_eq!(list.length(), 6);
    let mut two = list_of(&[1, 2]);
    two.reverse();
    assert_eq!(payloads(&two), vec![2, 1]);
}

#[test]
fn reverse_of_empty_is_empty() {
    let mut list: List<i32> = List::new();
    list.reverse();
    assert_eq!(list.length(), 0);
    assert!(list.first().is_none());
}

#[test]
fn long_list_is_walked_without_recursion() {
    let mut list = List::new();
    for item in 0..20000 {
        list.prepend(List::single(item));
    }
    assert_eq!(list.length(), 20000);
    assert_eq!(*list.last().unwrap().data(), 0);
    list.reverse();
    assert_eq!(*list.first().unwrap().data(), 0);
    assert_eq!(*list.last().unwrap().data(), 19999);
    while list.drop_head().is_some() {}
    assert_eq!(list.length(), 0);
}
