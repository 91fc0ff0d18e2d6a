use nir::cf::{
    nir_block, nir_cf_node, nir_cf_node_data, nir_function, nir_function_impl, nir_if,
};
use nir::exec_list::{exec_list, exec_node};
use nir::shader::nir_shader;

fn make_list(nodes: &mut Vec<exec_node>, elems: &[usize]) -> exec_list {
    let head = nodes.len();
    nodes.push(exec_node { next: None, prev: None });
    let tail = nodes.len();
    nodes.push(exec_node { next: None, prev: None });
    let mut last = head;
    for &e in elems {
        nodes[last].next = Some(e);
        nodes[e].prev = Some(last);
        last = e;
    }
    nodes[last].next = Some(tail);
    nodes[tail].prev = Some(last);
    exec_list { head_sentinel: head, tail_sentinel: tail }
}

// Handles of the control-flow nodes: a function body, two conditionals, and
// the blocks that the regions need.
const BODY: usize = 0;
const OUTER: usize = 1;
const INNER: usize = 2;
const FIRST: usize = 3;
const LAST: usize = 4;
const END: usize = 5;
const OUTER_THEN_A: usize = 6;
const OUTER_THEN_B: usize = 7;
const OUTER_ELSE: usize = 8;
const INNER_THEN_A: usize = 9;
const INNER_THEN_B: usize = 10;
const INNER_ELSE: usize = 11;
const COUNT: usize = 12;

/// A shader whose control-flow nodes start at link node 1, with the regions
/// and parents given. `regions` lists the members of the body, then of the
/// then- and else-branch of the outer conditional, then of the inner one.
fn nested(regions: [&[usize]; 5], parents: [Option<usize>; COUNT]) -> nir_shader {
    let offset = 1;
    let mut nodes = Vec::new();
    for _ in 0..COUNT + 1 {
        nodes.push(exec_node { next: None, prev: None });
    }
    let functions = make_list(&mut nodes, &[0]);
    let variables = make_list(&mut nodes, &[]);
    let lists: Vec<exec_list> = regions
        .iter()
        .map(|members| {
            let handles: Vec<usize> = members.iter().map(|m| m + offset).collect();
            make_list(&mut nodes, &handles)
        })
        .collect();
    let mut cf_node_table = Vec::new();
    for h in 0..COUNT {
        let data = match h {
            BODY => nir_cf_node_data::Function(nir_function_impl {
                cf_node: BODY,
                function: 0,
                body: lists[0],
                end_block: END,
            }),
            OUTER => nir_cf_node_data::If(nir_if { cf_node: OUTER, then_list: lists[1], else_list: lists[2] }),
            INNER => nir_cf_node_data::If(nir_if { cf_node: INNER, then_list: lists[3], else_list: lists[4] }),
            _ => nir_cf_node_data::Block(nir_block {
                cf_node: h,
                instr_list: make_list(&mut nodes, &[]),
                successors: [None, None],
            }),
        };
        cf_node_table.push(nir_cf_node { node: h + offset, parent: parents[h], data });
    }
    nir_shader {
        nodes,
        functions,
        variables,
        function_table: vec![nir_function { node: 0, name: String::from("main"), impl_: Some(BODY) }],
        function_offset: 0,
        variable_table: vec![],
        variable_offset: 0,
        cf_node_table,
        cf_node_offset: offset,
        instr_table: vec![],
        instr_offset: 0,
        phi_src_table: vec![],
        phi_src_offset: 0,
        op_infos: vec![],
        intrinsic_infos: vec![],
    }
}

fn parents(outer: usize, inner: usize) -> [Option<usize>; COUNT] {
    let mut p = [Some(BODY); COUNT];
    p[BODY] = None;
    p[OUTER] = Some(outer);
    p[INNER] = Some(inner);
    for h in [OUTER_THEN_A, OUTER_THEN_B, OUTER_ELSE] {
        p[h] = Some(OUTER);
    }
    for h in [INNER_THEN_A, INNER_THEN_B, INNER_ELSE] {
        p[h] = Some(INNER);
    }
    p
}

#[test]
fn conditional_nested_in_a_conditional_is_well_formed() {
    let s = nested(
        [
            &[FIRST, OUTER, LAST],
            &[OUTER_THEN_A, INNER, OUTER_THEN_B],
            &[OUTER_ELSE],
            &[INNER_THEN_A, INNER_THEN_B],
            &[INNER_ELSE],
        ],
        parents(BODY, OUTER),
    );
    assert!(s.validate());
    let inner = &s.cf_node_table[INNER];
    assert_eq!(inner.parent(&s).map(|n| n.node), Some(s.cf_node_table[OUTER].node));
    assert_eq!(inner.prev(&s).map(|n| n.node), Some(s.cf_node_table[OUTER_THEN_A].node));
    assert_eq!(inner.next(&s).map(|n| n.node), Some(s.cf_node_table[OUTER_THEN_B].node));
    let f = inner.as_if().unwrap();
    assert_eq!(f.first_then_block(&s).cf_node, INNER_THEN_A);
    assert_eq!(f.first_else_block(&s).cf_node, INNER_ELSE);
    assert_eq!(f.following_block(&s).cf_node, OUTER_THEN_B);
    let block = s.cf_node_table[INNER_THEN_B].as_block().unwrap();
    assert_eq!(block.parent(&s).node, inner.node);
    assert!(block.following_if(&s).is_none());
    let block = s.cf_node_table[OUTER_THEN_A].as_block().unwrap();
    assert_eq!(block.following_if(&s).map(|f| f.cf_node), Some(INNER));
}

#[test]
fn validate_refuses_conditionals_nested_in_each_other() {
    let s = nested(
        [
            &[FIRST, LAST],
            &[OUTER_THEN_A, INNER, OUTER_THEN_B],
            &[OUTER_ELSE],
            &[INNER_THEN_A, OUTER, INNER_THEN_B],
            &[INNER_ELSE],
        ],
        parents(INNER, OUTER),
    );
    assert!(!s.validate());
}

#[test]
fn validate_refuses_a_conditional_nested_in_itself() {
    let s = nested(
        [
            &[FIRST, INNER, LAST],
            &[OUTER_THEN_A, OUTER, OUTER_THEN_B],
            &[OUTER_ELSE],
            &[INNER_THEN_A, INNER_THEN_B],
            &[INNER_ELSE],
        ],
        parents(OUTER, BODY),
    );
    assert!(!s.validate());
}

#[test]
fn validate_refuses_a_parent_that_does_not_enclose() {
    let s = nested(
        [
            &[FIRST, OUTER, LAST],
            &[OUTER_THEN_A, INNER, OUTER_THEN_B],
            &[OUTER_ELSE],
            &[INNER_THEN_A, INNER_THEN_B],
            &[INNER_ELSE],
        ],
        parents(BODY, BODY),
    );
    assert!(!s.validate());
}
