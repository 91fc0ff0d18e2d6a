//! Structured control flow: blocks, conditionals and loops nested in lists,
//! and the function bodies that enclose them.

use crate::exec_list::{exec_list, ExecListIter};
use crate::instr::nir_instr;
use crate::shader::nir_shader;
use vstd::prelude::*;

verus! {

/// A basic block: its instructions, and up to two blocks that may run next.
///
/// `cf_node` is the handle of the control-flow node that the block is; the
/// successors are handles of control-flow nodes that are blocks.
#[derive(Clone, Copy, Debug, PartialEq, Eq)]
pub struct nir_block {
    pub cf_node: usize,
    pub instr_list: exec_list,
    pub successors: [Option<usize>; 2],
}

/// A conditional, with the lists of control-flow nodes of its two branches.
#[derive(Clone, Copy, Debug, PartialEq, Eq)]
pub struct nir_if {
    pub cf_node: usize,
    pub then_list: exec_list,
    pub else_list: exec_list,
}

/// A loop, with the list of control-flow nodes of its body.
#[derive(Clone, Copy, Debug, PartialEq, Eq)]
pub struct nir_loop {
    pub cf_node: usize,
    pub body: exec_list,
}

/// The body of a function: a list of control-flow nodes, the block at which
/// every path through the function ends, and the function it belongs to.
#[derive(Clone, Copy, Debug, PartialEq, Eq)]
pub struct nir_function_impl {
    pub cf_node: usize,
    pub function: usize,
    pub body: exec_list,
    pub end_block: usize,
}

/// The tag of a control-flow node.
#[derive(Clone, Copy, Debug, PartialEq, Eq)]
pub enum nir_cf_node_type {
    nir_cf_node_block,
    nir_cf_node_if,
    nir_cf_node_loop,
    nir_cf_node_function,
}

/// What a control-flow node is, with the fields of its variant.
#[derive(Clone, Copy, Debug, PartialEq, Eq)]
pub enum nir_cf_node_data {
    Block(nir_block),
    If(nir_if),
    Loop(nir_loop),
    Function(nir_function_impl),
}

/// A control-flow node: the handle of its embedded link node, the handle of
/// the control-flow node that encloses it, and its variant. Only a function
/// body has no parent.
#[derive(Clone, Copy, Debug, PartialEq, Eq)]
pub struct nir_cf_node {
    pub node: usize,
    pub parent: Option<usize>,
    pub data: nir_cf_node_data,
}

/// A function, with the handle of the control-flow node that is its body, if
/// it has one.
#[derive(Debug, PartialEq, Eq)]
pub struct nir_function {
    pub node: usize,
    pub name: String,
    pub impl_: Option<usize>,
}

/// A variable of the shader.
#[derive(Debug, PartialEq, Eq)]
pub struct nir_variable {
    pub node: usize,
    pub name: String,
}

impl nir_block {
    /// The block is one of the shader's: the variant of its control-flow node.
    pub open spec fn is_in(&self, shader: &nir_shader) -> bool {
        &&& self.cf_node < shader.cf_node_table@.len()
        &&& shader.cf_node_table@[self.cf_node as int].data == nir_cf_node_data::Block(*self)
    }

    /// The instruction list is a list of instructions, and the successors are
    /// blocks.
    pub open spec fn inv(&self, shader: &nir_shader) -> bool {
        &&& self.instr_list.holds(shader.nodes@, shader.instr_offset, shader.instr_table@.len())
        &&& forall|k: int|
            0 <= k < 2 ==> ((#[trigger] self.successors@[k]) matches Some(t) ==> shader.is_block(t))
    }
}

impl nir_if {
    /// The conditional is one of the shader's: the variant of its control-flow
    /// node.
    pub open spec fn is_in(&self, shader: &nir_shader) -> bool {
        &&& self.cf_node < shader.cf_node_table@.len()
        &&& shader.cf_node_table@[self.cf_node as int].data == nir_cf_node_data::If(*self)
    }

    /// Each branch is a structured region that the conditional encloses.
    pub open spec fn inv(&self, shader: &nir_shader) -> bool {
        &&& shader.is_region(self.then_list, self.cf_node)
        &&& shader.is_region(self.else_list, self.cf_node)
    }
}

impl nir_loop {
    /// The loop is one of the shader's: the variant of its control-flow node.
    pub open spec fn is_in(&self, shader: &nir_shader) -> bool {
        &&& self.cf_node < shader.cf_node_table@.len()
        &&& shader.cf_node_table@[self.cf_node as int].data == nir_cf_node_data::Loop(*self)
    }

    /// The body is a structured region that the loop encloses.
    pub open spec fn inv(&self, shader: &nir_shader) -> bool {
        shader.is_region(self.body, self.cf_node)
    }
}

impl nir_function_impl {
    /// The body is one of the shader's: the variant of its control-flow node.
    pub open spec fn is_in(&self, shader: &nir_shader) -> bool {
        &&& self.cf_node < shader.cf_node_table@.len()
        &&& shader.cf_node_table@[self.cf_node as int].data == nir_cf_node_data::Function(*self)
    }

    /// The body belongs to a function that names it as its body, its list is
    /// a structured region that it encloses, and its end block is a block that
    /// it encloses.
    pub open spec fn inv(&self, shader: &nir_shader) -> bool {
        &&& self.function < shader.function_table@.len()
        &&& shader.function_table@[self.function as int].impl_ == Some(self.cf_node)
        &&& shader.is_block(self.end_block)
        &&& shader.cf_node_table@[self.end_block as int].parent == Some(self.cf_node)
        &&& shader.is_region(self.body, self.cf_node)
    }
}

impl nir_cf_node {
    /// The index of the node in the shader's table.
    pub open spec fn index(&self, shader: &nir_shader) -> int {
        self.node - shader.cf_node_offset
    }

    /// The record is one of the shader's.
    pub open spec fn is_in(&self, shader: &nir_shader) -> bool {
        &&& shader.cf_node_offset <= self.node < shader.cf_node_offset
            + shader.cf_node_table@.len()
        &&& shader.cf_node_table@[self.index(shader)] == *self
    }

    /// A function body has no parent; any other node has one, which is not a
    /// block.
    pub open spec fn parent_inv(&self, shader: &nir_shader) -> bool {
        match self.parent {
            None => self.data is Function,
            Some(p) => {
                &&& self.data !is Function
                &&& p < shader.cf_node_table@.len()
                &&& shader.cf_node_table@[p as int].data !is Block
            },
        }
    }

    /// The variant is well formed and names the node at index `i` as its own.
    pub open spec fn data_inv(&self, shader: &nir_shader, i: int) -> bool {
        match self.data {
            nir_cf_node_data::Block(b) => b.cf_node == i && b.inv(shader),
            nir_cf_node_data::If(f) => f.cf_node == i && f.inv(shader),
            nir_cf_node_data::Loop(l) => l.cf_node == i && l.inv(shader),
            nir_cf_node_data::Function(m) => m.cf_node == i && m.inv(shader),
        }
    }

    /// The node stands in no list: both its links are null.
    pub open spec fn is_unlinked(&self, shader: &nir_shader) -> bool {
        &&& shader.nodes@[self.node as int].next is None
        &&& shader.nodes@[self.node as int].prev is None
    }

    /// The node stands in a list.
    pub open spec fn is_linked(&self, shader: &nir_shader) -> bool {
        shader.nodes@[self.node as int].next is Some
    }

    /// The node stands in a structured region, or it is a block or a function
    /// body that stands in no list.
    pub open spec fn placed(&self, shader: &nir_shader) -> bool {
        ||| shader.in_region(self.node)
        ||| (self.data is Block || self.data is Function) && self.is_unlinked(shader)
    }
}

impl nir_function {
    /// The body of the function, if it has one, is a function body.
    pub open spec fn inv(&self, shader: &nir_shader) -> bool {
        self.impl_ matches Some(h) ==> {
            &&& h < shader.cf_node_table@.len()
            &&& shader.cf_node_table@[h as int].data is Function
        }
    }
}


impl nir_cf_node {
    /// The node's tag.
    pub open spec fn spec_type(&self) -> nir_cf_node_type {
        match self.data {
            nir_cf_node_data::Block(_) => nir_cf_node_type::nir_cf_node_block,
            nir_cf_node_data::If(_) => nir_cf_node_type::nir_cf_node_if,
            nir_cf_node_data::Loop(_) => nir_cf_node_type::nir_cf_node_loop,
            nir_cf_node_data::Function(_) => nir_cf_node_type::nir_cf_node_function,
        }
    }

    pub open spec fn spec_as_block(&self) -> Option<&nir_block> {
        match &self.data {
            nir_cf_node_data::Block(b) => Some(b),
            _ => None,
        }
    }

    pub open spec fn spec_as_if(&self) -> Option<&nir_if> {
        match &self.data {
            nir_cf_node_data::If(f) => Some(f),
            _ => None,
        }
    }

    pub open spec fn spec_as_loop(&self) -> Option<&nir_loop> {
        match &self.data {
            nir_cf_node_data::Loop(l) => Some(l),
            _ => None,
        }
    }

    pub open spec fn spec_as_function_impl(&self) -> Option<&nir_function_impl> {
        match &self.data {
            nir_cf_node_data::Function(m) => Some(m),
            _ => None,
        }
    }

    /// The node's tag.
    #[verifier::when_used_as_spec(spec_type)]
    pub fn type_(&self) -> (r: nir_cf_node_type)
        ensures
            r == self.spec_type(),
    {
        match &self.data {
            nir_cf_node_data::Block(_) => nir_cf_node_type::nir_cf_node_block,
            nir_cf_node_data::If(_) => nir_cf_node_type::nir_cf_node_if,
            nir_cf_node_data::Loop(_) => nir_cf_node_type::nir_cf_node_loop,
            nir_cf_node_data::Function(_) => nir_cf_node_type::nir_cf_node_function,
        }
    }

    /// The node as a block, present exactly if its tag says it is one.
    #[verifier::when_used_as_spec(spec_as_block)]
    pub fn as_block(&self) -> (r: Option<&nir_block>)
        ensures
            r == self.spec_as_block(),
            r is Some <==> self.spec_type() == nir_cf_node_type::nir_cf_node_block,
    {
        match &self.data {
            nir_cf_node_data::Block(b) => Some(b),
            _ => None,
        }
    }

    /// The node as a conditional, present exactly if its tag says it is one.
    #[verifier::when_used_as_spec(spec_as_if)]
    pub fn as_if(&self) -> (r: Option<&nir_if>)
        ensures
            r == self.spec_as_if(),
            r is Some <==> self.spec_type() == nir_cf_node_type::nir_cf_node_if,
    {
        match &self.data {
            nir_cf_node_data::If(f) => Some(f),
            _ => None,
        }
    }

    /// The node as a loop, present exactly if its tag says it is one.
    #[verifier::when_used_as_spec(spec_as_loop)]
    pub fn as_loop(&self) -> (r: Option<&nir_loop>)
        ensures
            r == self.spec_as_loop(),
            r is Some <==> self.spec_type() == nir_cf_node_type::nir_cf_node_loop,
    {
        match &self.data {
            nir_cf_node_data::Loop(l) => Some(l),
            _ => None,
        }
    }

    /// The node as a function body, present exactly if its tag says it is one.
    #[verifier::when_used_as_spec(spec_as_function_impl)]
    pub fn as_function_impl(&self) -> (r: Option<&nir_function_impl>)
        ensures
            r == self.spec_as_function_impl(),
            r is Some <==> self.spec_type() == nir_cf_node_type::nir_cf_node_function,
    {
        match &self.data {
            nir_cf_node_data::Function(m) => Some(m),
            _ => None,
        }
    }
}

/// How many of the three queries for a block, a conditional and a loop find
/// the node to be what they ask for.
pub open spec fn cf_variants_present(n: nir_cf_node) -> int {
    (if n.as_block() is Some {
        1int
    } else {
        0int
    }) + (if n.as_if() is Some {
        1int
    } else {
        0int
    }) + (if n.as_loop() is Some {
        1int
    } else {
        0int
    })
}

/// A control-flow node that is not a function body is exactly one of a block,
/// a conditional and a loop.
pub proof fn lemma_cf_node_is_one_variant(n: nir_cf_node)
    requires
        n.spec_type() != nir_cf_node_type::nir_cf_node_function,
    ensures
        cf_variants_present(n) == 1,
{
}

/// A function body is none of a block, a conditional and a loop.
pub proof fn lemma_function_body_is_no_variant(n: nir_cf_node)
    requires
        n.spec_type() == nir_cf_node_type::nir_cf_node_function,
    ensures
        cf_variants_present(n) == 0,
        n.as_function_impl() is Some,
{
}

impl nir_cf_node {
    /// The control-flow node after this one in its list, or `None` if this is
    /// the last. The node must stand in a list.
    pub fn next<'a>(&self, shader: &'a nir_shader) -> (r: Option<&'a nir_cf_node>)
        requires
            shader.wf(),
            self.is_in(shader),
            self.is_linked(shader),
        ensures
            r == shader.sibling(self.node, false),
    {
        proof {
            shader.lemma_cf_node_can_walk(*self, false);
        }
        let mut iter: ExecListIter<nir_cf_node> = ExecListIter::at(
            &shader.nodes,
            &shader.cf_node_table,
            self.node,
            shader.cf_node_offset,
            false,
        );
        iter.next()
    }

    /// The control-flow node before this one in its list, or `None` if this is
    /// the first. The node must stand in a list.
    pub fn prev<'a>(&self, shader: &'a nir_shader) -> (r: Option<&'a nir_cf_node>)
        requires
            shader.wf(),
            self.is_in(shader),
            self.is_linked(shader),
        ensures
            r == shader.sibling(self.node, true),
    {
        proof {
            shader.lemma_cf_node_can_walk(*self, true);
        }
        let mut iter: ExecListIter<nir_cf_node> = ExecListIter::at(
            &shader.nodes,
            &shader.cf_node_table,
            self.node,
            shader.cf_node_offset,
            true,
        );
        iter.next()
    }

    /// The control-flow node that encloses this one; a function body has none.
    pub fn parent<'a>(&self, shader: &'a nir_shader) -> (r: Option<&'a nir_cf_node>)
        requires
            self.parent matches Some(p) ==> p < shader.cf_node_table@.len(),
        ensures
            r == match self.parent {
                Some(p) => Some(&shader.cf_node_table@[p as int]),
                None => None,
            },
    {
        match self.parent {
            Some(p) => Some(&shader.cf_node_table[p]),
            None => None,
        }
    }
}

impl nir_block {
    /// A cursor over the block's instructions, in list order.
    pub fn iter_instr_list<'a>(&self, shader: &'a nir_shader) -> (it: ExecListIter<'a, nir_instr>)
        requires
            self.inv(shader),
        ensures
            it.wf(),
            it@ == self.instr_list.records(shader.nodes@, shader.instr_offset, shader.instr_table@),
    {
        ExecListIter::new(&shader.nodes, &shader.instr_table, &self.instr_list, shader.instr_offset)
    }

    /// The blocks that may run next. A slot that is not in use is `None`.
    pub fn successors<'a>(&self, shader: &'a nir_shader) -> (r: [Option<&'a nir_block>; 2])
        requires
            self.inv(shader),
        ensures
            forall|k: int|
                0 <= k < 2 ==> #[trigger] r@[k] == match self.successors@[k] {
                    Some(t) => Some(&shader.spec_block_at(t)),
                    None => None,
                },
    {
        let first = match self.successors[0] {
            Some(t) => {
                assert(self.successors@[0] is Some);
                Some(shader.block_at(t))
            },
            None => None,
        };
        let second = match self.successors[1] {
            Some(t) => {
                assert(self.successors@[1] is Some);
                Some(shader.block_at(t))
            },
            None => None,
        };
        [first, second]
    }

    /// The conditional that follows the block in its list, if what follows is
    /// one. The block must stand in a list.
    pub fn following_if<'a>(&self, shader: &'a nir_shader) -> (r: Option<&'a nir_if>)
        requires
            shader.wf(),
            self.is_in(shader),
            shader.cf_node_table@[self.cf_node as int].is_linked(shader),
        ensures
            r == match shader.sibling(shader.cf_node_table@[self.cf_node as int].node, false) {
                Some(n) => n.as_if(),
                None => None,
            },
    {
        proof {
            shader.lemma_cf_node_is_in(self.cf_node as int);
        }
        match shader.cf_node_table[self.cf_node].next(shader) {
            Some(n) => n.as_if(),
            None => None,
        }
    }

    /// The loop that follows the block in its list, if what follows is one.
    /// The block must stand in a list.
    pub fn following_loop<'a>(&self, shader: &'a nir_shader) -> (r: Option<&'a nir_loop>)
        requires
            shader.wf(),
            self.is_in(shader),
            shader.cf_node_table@[self.cf_node as int].is_linked(shader),
        ensures
            r == match shader.sibling(shader.cf_node_table@[self.cf_node as int].node, false) {
                Some(n) => n.as_loop(),
                None => None,
            },
    {
        proof {
            shader.lemma_cf_node_is_in(self.cf_node as int);
        }
        match shader.cf_node_table[self.cf_node].next(shader) {
            Some(n) => n.as_loop(),
            None => None,
        }
    }

    /// The control-flow node that encloses the block: a conditional, a loop or
    /// a function body, never a block. If the block stands in a list, the list
    /// is a region of that node.
    pub fn parent<'a>(&self, shader: &'a nir_shader) -> (r: &'a nir_cf_node)
        requires
            shader.wf(),
            self.is_in(shader),
        ensures
            shader.cf_node_table@[self.cf_node as int].parent matches Some(p) && *r
                == shader.cf_node_table@[p as int],
            r.data !is Block,
            shader.cf_node_table@[self.cf_node as int].is_linked(shader) ==> exists|k: int|
                shader.in_region_of(
                    shader.cf_node_table@[self.cf_node as int].node,
                    r.index(shader),
                    k,
                ),
    {
        let own = &shader.cf_node_table[self.cf_node];
        proof {
            assert(shader.cf_node_inv(self.cf_node as int));
            let p = own.parent.unwrap();
            assert(shader.cf_node_inv(p as int));
            if own.is_linked(shader) {
                shader.lemma_cf_node_in_region(*own);
                let k = choose|k: int| shader.in_region_of(own.node, p as int, k);
                assert(shader.in_region_of(
                    own.node,
                    shader.cf_node_table@[p as int].index(shader),
                    k,
                ));
            }
        }
        own.parent(shader).unwrap()
    }
}

impl nir_if {
    /// A cursor over the control-flow nodes of the then-branch.
    pub fn iter_then_list<'a>(&self, shader: &'a nir_shader) -> (it: ExecListIter<'a, nir_cf_node>)
        requires
            self.inv(shader),
        ensures
            it.wf(),
            it@ == shader.cf_records(self.then_list),
    {
        ExecListIter::new(
            &shader.nodes,
            &shader.cf_node_table,
            &self.then_list,
            shader.cf_node_offset,
        )
    }

    /// A cursor over the control-flow nodes of the else-branch.
    pub fn iter_else_list<'a>(&self, shader: &'a nir_shader) -> (it: ExecListIter<'a, nir_cf_node>)
        requires
            self.inv(shader),
        ensures
            it.wf(),
            it@ == shader.cf_records(self.else_list),
    {
        ExecListIter::new(
            &shader.nodes,
            &shader.cf_node_table,
            &self.else_list,
            shader.cf_node_offset,
        )
    }

    /// The block with which the then-branch begins.
    pub fn first_then_block<'a>(&self, shader: &'a nir_shader) -> (r: &'a nir_block)
        requires
            self.inv(shader),
        ensures
            shader.cf_records(self.then_list)[0].as_block() == Some(r),
    {
        self.iter_then_list(shader).next().unwrap().as_block().unwrap()
    }

    /// The block with which the else-branch begins.
    pub fn first_else_block<'a>(&self, shader: &'a nir_shader) -> (r: &'a nir_block)
        requires
            self.inv(shader),
        ensures
            shader.cf_records(self.else_list)[0].as_block() == Some(r),
    {
        self.iter_else_list(shader).next().unwrap().as_block().unwrap()
    }

    /// The block that follows the conditional in its list.
    pub fn following_block<'a>(&self, shader: &'a nir_shader) -> (r: &'a nir_block)
        requires
            shader.wf(),
            self.is_in(shader),
        ensures
            shader.sibling(shader.cf_node_table@[self.cf_node as int].node, false) matches Some(n)
                && n.as_block() == Some(r),
    {
        let own = &shader.cf_node_table[self.cf_node];
        proof {
            assert(shader.cf_node_inv(self.cf_node as int));
            let (l, j) = shader.lemma_cf_node_in_region(*own);
            shader.lemma_siblings(l, j);
            assert(nir_shader::block_follows(shader.cf_records(l), j));
        }
        own.next(shader).unwrap().as_block().unwrap()
    }
}

impl nir_loop {
    /// A cursor over the control-flow nodes of the body.
    pub fn iter_body<'a>(&self, shader: &'a nir_shader) -> (it: ExecListIter<'a, nir_cf_node>)
        requires
            self.inv(shader),
        ensures
            it.wf(),
            it@ == shader.cf_records(self.body),
    {
        ExecListIter::new(&shader.nodes, &shader.cf_node_table, &self.body, shader.cf_node_offset)
    }

    /// The block with which the body begins.
    pub fn first_block<'a>(&self, shader: &'a nir_shader) -> (r: &'a nir_block)
        requires
            self.inv(shader),
        ensures
            shader.cf_records(self.body)[0].as_block() == Some(r),
    {
        self.iter_body(shader).next().unwrap().as_block().unwrap()
    }

    /// The block that follows the loop in its list.
    pub fn following_block<'a>(&self, shader: &'a nir_shader) -> (r: &'a nir_block)
        requires
            shader.wf(),
            self.is_in(shader),
        ensures
            shader.sibling(shader.cf_node_table@[self.cf_node as int].node, false) matches Some(n)
                && n.as_block() == Some(r),
    {
        let own = &shader.cf_node_table[self.cf_node];
        proof {
            assert(shader.cf_node_inv(self.cf_node as int));
            let (l, j) = shader.lemma_cf_node_in_region(*own);
            shader.lemma_siblings(l, j);
            assert(nir_shader::block_follows(shader.cf_records(l), j));
        }
        own.next(shader).unwrap().as_block().unwrap()
    }
}

impl nir_function_impl {
    /// A cursor over the control-flow nodes of the body.
    pub fn iter_body<'a>(&self, shader: &'a nir_shader) -> (it: ExecListIter<'a, nir_cf_node>)
        requires
            self.inv(shader),
        ensures
            it.wf(),
            it@ == shader.cf_records(self.body),
    {
        ExecListIter::new(&shader.nodes, &shader.cf_node_table, &self.body, shader.cf_node_offset)
    }

    /// The block at which every path through the function ends.
    pub fn end_block<'a>(&self, shader: &'a nir_shader) -> (r: &'a nir_block)
        requires
            shader.is_block(self.end_block),
        ensures
            *r == shader.spec_block_at(self.end_block),
    {
        shader.block_at(self.end_block)
    }

    /// The function whose body this is.
    pub fn function<'a>(&self, shader: &'a nir_shader) -> (r: &'a nir_function)
        requires
            self.function < shader.function_table@.len(),
        ensures
            *r == shader.function_table@[self.function as int],
    {
        &shader.function_table[self.function]
    }
}

impl nir_function {
    /// The body of the function, if it has one.
    pub fn get_impl<'a>(&self, shader: &'a nir_shader) -> (r: Option<&'a nir_function_impl>)
        requires
            self.inv(shader),
        ensures
            r == match self.impl_ {
                Some(h) => shader.cf_node_table@[h as int].as_function_impl(),
                None => None,
            },
            r is Some <==> self.impl_ is Some,
    {
        match self.impl_ {
            Some(h) => shader.cf_node_table[h].as_function_impl(),
            None => None,
        }
    }
}

} // verus!
