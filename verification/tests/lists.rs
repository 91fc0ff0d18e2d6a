use nir::exec_list::{exec_list, exec_node, ExecListIter};

fn unlinked(count: usize) -> Vec<exec_node> {
    let mut nodes = Vec::new();
    for _ in 0..count {
        nodes.push(exec_node { next: None, prev: None });
    }
    nodes
}

fn make_list(nodes: &mut Vec<exec_node>, elems: &[usize]) -> exec_list {
    let head = nodes.len();
    nodes.push(exec_node { next: None, prev: None });
    let tail = nodes.len();
    nodes.push(exec_node { next: None, prev: None });
    let mut last = head;
    for &e in elems {
        nodes[last].next = Some(e);
        nodes[e].prev = Some(last);
        last = e;
    }
    nodes[last].next = Some(tail);
    nodes[tail].prev = Some(last);
    exec_list { head_sentinel: head, tail_sentinel: tail }
}

/// Ten records whose link nodes are the handles 3 to 12, and two lists over them.
fn fixture() -> (Vec<exec_node>, Vec<u32>, usize, exec_list, exec_list, exec_list) {
    let offset = 3;
    let records: Vec<u32> = (100..110).collect();
    let mut nodes = unlinked(offset + records.len());
    let odd = make_list(&mut nodes, &[4, 6, 8, 10, 12]);
    let even = make_list(&mut nodes, &[11, 3, 7]);
    let empty = make_list(&mut nodes, &[]);
    (nodes, records, offset, odd, even, empty)
}

fn values(refs: Vec<&u32>) -> Vec<u32> {
    refs.into_iter().copied().collect()
}

#[test]
fn walk_gives_the_handles_in_list_order() {
    let (nodes, _, _, odd, even, empty) = fixture();
    assert_eq!(odd.walk(&nodes), Some(vec![4, 6, 8, 10, 12]));
    assert_eq!(even.walk(&nodes), Some(vec![11, 3, 7]));
    assert_eq!(empty.walk(&nodes), Some(vec![]));
}

#[test]
fn walk_table_checks_the_range_of_the_table() {
    let (nodes, records, offset, odd, _, empty) = fixture();
    assert_eq!(odd.walk_table(&nodes, offset, records.len()), Some(vec![4, 6, 8, 10, 12]));
    assert_eq!(odd.walk_table(&nodes, 5, records.len()), None);
    assert_eq!(odd.walk_table(&nodes, offset, 9), None);
    assert_eq!(odd.walk_table(&nodes, 4, 9), Some(vec![4, 6, 8, 10, 12]));
    assert_eq!(empty.walk_table(&nodes, 1000, 0), Some(vec![]));
}

#[test]
fn forward_iteration_follows_list_order() {
    let (nodes, records, offset, odd, even, _) = fixture();
    let it = ExecListIter::new(&nodes, &records, &odd, offset);
    assert_eq!(values(it.collect()), vec![101, 103, 105, 107, 109]);
    let it = ExecListIter::new(&nodes, &records, &even, offset);
    assert_eq!(values(it.collect()), vec![108, 100, 104]);
}

#[test]
fn backward_iteration_is_forward_iteration_reversed() {
    let (nodes, records, offset, odd, even, empty) = fixture();
    for l in [odd, even, empty] {
        let mut forward = values(ExecListIter::new(&nodes, &records, &l, offset).collect());
        let backward = values(ExecListIter::new_rev(&nodes, &records, &l, offset).collect());
        forward.reverse();
        assert_eq!(forward, backward);
    }
    let backward = values(ExecListIter::new_rev(&nodes, &records, &odd, offset).collect());
    assert_eq!(backward, vec![109, 107, 105, 103, 101]);
}

#[test]
fn empty_list_yields_nothing_either_way() {
    let (nodes, records, offset, _, _, empty) = fixture();
    assert!(empty.is_empty(&nodes));
    let mut it = ExecListIter::new(&nodes, &records, &empty, offset);
    assert_eq!(it.next(), None);
    let mut it = ExecListIter::new_rev(&nodes, &records, &empty, offset);
    assert_eq!(it.next(), None);
    assert!(ExecListIter::new(&nodes, &records, &empty, offset).collect().is_empty());
    assert!(ExecListIter::new_rev(&nodes, &records, &empty, offset).collect().is_empty());
}

#[test]
fn is_empty_tells_lists_apart() {
    let (nodes, _, _, odd, even, empty) = fixture();
    assert!(!odd.is_empty(&nodes));
    assert!(!even.is_empty(&nodes));
    assert!(empty.is_empty(&nodes));
}

#[test]
fn next_steps_one_record_at_a_time() {
    let (nodes, records, offset, _, even, _) = fixture();
    let mut it = ExecListIter::new(&nodes, &records, &even, offset);
    assert_eq!(it.next(), Some(&108));
    assert_eq!(it.next(), Some(&100));
    assert_eq!(it.next(), Some(&104));
    assert_eq!(it.next(), None);
}

#[test]
fn iterator_started_mid_list_yields_the_rest() {
    let (nodes, records, offset, odd, _, _) = fixture();
    let it = ExecListIter::at(&nodes, &records, 8, offset, false);
    assert_eq!(values(it.collect()), vec![107, 109]);
    let it = ExecListIter::at(&nodes, &records, 8, offset, true);
    assert_eq!(values(it.collect()), vec![103, 101]);
    let mut first = ExecListIter::at(&nodes, &records, 4, offset, true);
    assert_eq!(first.next(), None);
    let mut last = ExecListIter::at(&nodes, &records, 12, offset, false);
    assert_eq!(last.next(), None);
    let mut from_head = ExecListIter::at(&nodes, &records, odd.head_sentinel, offset, false);
    assert_eq!(from_head.next(), Some(&101));
}

#[test]
fn offset_decides_which_record_a_node_stands_for() {
    let mut nodes = unlinked(8);
    let l = make_list(&mut nodes, &[5, 6]);
    let low: Vec<u32> = vec![10, 11, 12, 13, 14, 15, 16];
    let high: Vec<u32> = vec![20, 21];
    assert_eq!(values(ExecListIter::new(&nodes, &low, &l, 0).collect()), vec![15, 16]);
    assert_eq!(values(ExecListIter::new(&nodes, &high, &l, 5).collect()), vec![20, 21]);
}

#[test]
fn walk_refuses_sentinels_outside_the_arena() {
    let (nodes, _, _, odd, _, _) = fixture();
    let n = nodes.len();
    assert_eq!(exec_list { head_sentinel: n, tail_sentinel: odd.tail_sentinel }.walk(&nodes), None);
    assert_eq!(exec_list { head_sentinel: odd.head_sentinel, tail_sentinel: n }.walk(&nodes), None);
}

#[test]
fn walk_refuses_the_tail_of_another_list() {
    let (nodes, _, _, odd, even, _) = fixture();
    let crossed = exec_list { head_sentinel: odd.head_sentinel, tail_sentinel: even.tail_sentinel };
    assert_eq!(crossed.walk(&nodes), None);
}

#[test]
fn walk_refuses_a_head_that_is_not_a_sentinel() {
    let (nodes, _, _, odd, _, _) = fixture();
    let inner = exec_list { head_sentinel: 6, tail_sentinel: odd.tail_sentinel };
    assert_eq!(inner.walk(&nodes), None);
    let same = exec_list { head_sentinel: odd.head_sentinel, tail_sentinel: odd.head_sentinel };
    assert_eq!(same.walk(&nodes), None);
}

#[test]
fn walk_refuses_a_broken_back_link() {
    let (mut nodes, _, _, odd, _, _) = fixture();
    nodes[8].prev = Some(4);
    assert_eq!(odd.walk(&nodes), None);
}

#[test]
fn walk_refuses_a_link_out_of_the_arena() {
    let (mut nodes, _, _, odd, _, _) = fixture();
    let n = nodes.len();
    nodes[10].next = Some(n + 5);
    assert_eq!(odd.walk(&nodes), None);
}

#[test]
fn walk_refuses_a_null_link_in_the_middle() {
    let (mut nodes, _, _, odd, _, _) = fixture();
    nodes[6].next = None;
    assert_eq!(odd.walk(&nodes), None);
}

#[test]
fn walk_refuses_a_cycle() {
    let mut nodes = vec![
        exec_node { next: Some(1), prev: None },
        exec_node { next: Some(2), prev: Some(0) },
        exec_node { next: Some(1), prev: Some(1) },
        exec_node { next: None, prev: Some(2) },
    ];
    let l = exec_list { head_sentinel: 0, tail_sentinel: 3 };
    assert_eq!(l.walk(&nodes), None);
    nodes[1].prev = Some(2);
    assert_eq!(l.walk(&nodes), None);
}

#[test]
fn walk_accepts_a_list_that_fills_the_arena() {
    let nodes = vec![
        exec_node { next: Some(2), prev: None },
        exec_node { next: None, prev: Some(3) },
        exec_node { next: Some(3), prev: Some(0) },
        exec_node { next: Some(1), prev: Some(2) },
    ];
    let l = exec_list { head_sentinel: 0, tail_sentinel: 1 };
    assert_eq!(l.walk(&nodes), Some(vec![2, 3]));
}

#[test]
fn walk_accepts_two_sentinels_alone() {
    let nodes = vec![exec_node { next: Some(1), prev: None }, exec_node { next: None, prev: Some(0) }];
    let l = exec_list { head_sentinel: 0, tail_sentinel: 1 };
    assert_eq!(l.walk(&nodes), Some(vec![]));
    let one = vec![exec_node { next: None, prev: None }];
    assert_eq!(exec_list { head_sentinel: 0, tail_sentinel: 0 }.walk(&one), None);
}
