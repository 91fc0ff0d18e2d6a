//! The shader: the arena of link nodes, the tables of records, and the two
//! lists that hang off the shader itself.

use crate::cf::{nir_block, nir_cf_node, nir_cf_node_data, nir_function, nir_variable};
use crate::exec_list::{
    all_embedded, exec_list, exec_node, lemma_elem_walks, nodes_from, ExecListIter,
};
use crate::instr::{nir_instr, nir_intrinsic_info, nir_op_info, nir_phi_src};
use vstd::prelude::*;

verus! {

/// A shader and everything it owns.
///
/// Records refer to each other by handle: the index of the record in its
/// table. Five kinds of record stand in lists and so embed a link node; the
/// link node embedded in record `i` of such a table has the handle `i` plus
/// the table's offset, so that a cursor that stands on a link node finds the
/// record by subtracting the offset.
pub struct nir_shader {
    /// The arena of link nodes: those embedded in records, and the sentinels
    /// of every list.
    pub nodes: Vec<exec_node>,
    /// The list of the shader's functions.
    pub functions: exec_list,
    /// The list of the shader's variables.
    pub variables: exec_list,
    /// The functions, by handle.
    pub function_table: Vec<nir_function>,
    /// The offset of the link nodes embedded in functions.
    pub function_offset: usize,
    /// The variables, by handle.
    pub variable_table: Vec<nir_variable>,
    /// The offset of the link nodes embedded in variables.
    pub variable_offset: usize,
    /// The control-flow nodes, by handle.
    pub cf_node_table: Vec<nir_cf_node>,
    /// The offset of the link nodes embedded in control-flow nodes.
    pub cf_node_offset: usize,
    /// The instructions, by handle.
    pub instr_table: Vec<nir_instr>,
    /// The offset of the link nodes embedded in instructions.
    pub instr_offset: usize,
    /// The phi sources, by handle.
    pub phi_src_table: Vec<nir_phi_src>,
    /// The offset of the link nodes embedded in phi sources.
    pub phi_src_offset: usize,
    /// The descriptors of the ALU operations, by operation number.
    pub op_infos: Vec<nir_op_info>,
    /// The descriptors of the intrinsics, by intrinsic number.
    pub intrinsic_infos: Vec<nir_intrinsic_info>,
}

impl nir_shader {
    /// `h` is the handle of a control-flow node that is a block.
    pub open spec fn is_block(&self, h: usize) -> bool {
        &&& h < self.cf_node_table@.len()
        &&& self.cf_node_table@[h as int].data is Block
    }

    /// The control-flow node that embeds link node `n`.
    pub open spec fn cf_at(&self, n: usize) -> nir_cf_node {
        self.cf_node_table@[n - self.cf_node_offset]
    }

    /// The control-flow nodes of list `l`, in list order.
    pub open spec fn cf_records(&self, l: exec_list) -> Seq<nir_cf_node> {
        l.records(self.nodes@, self.cf_node_offset, self.cf_node_table@)
    }

    /// `l` is a structured region enclosed by control-flow node `parent`: a
    /// list of control-flow nodes that begins and ends with a block, in which a
    /// block follows each node that is not one, and whose nodes all have
    /// `parent` as their parent.
    pub open spec fn is_region(&self, l: exec_list, parent: usize) -> bool {
        let r = self.cf_records(l);
        &&& l.holds(self.nodes@, self.cf_node_offset, self.cf_node_table@.len())
        &&& r.len() >= 1
        &&& r[0].data is Block
        &&& r.last().data is Block
        &&& forall|k: int| 0 <= k < r.len() ==> (#[trigger] r[k]).parent == Some(parent)
        &&& forall|k: int| 0 <= k < r.len() - 1 ==> #[trigger] Self::block_follows(r, k)
    }

    /// Unless the node at position `k` of `r` is a block, the one after it is.
    pub open spec fn block_follows(r: Seq<nir_cf_node>, k: int) -> bool {
        r[k].data !is Block ==> r[k + 1].data is Block
    }

    /// The lists of control-flow nodes that control-flow node `q` encloses.
    pub open spec fn regions_of(&self, q: int) -> Seq<exec_list> {
        match self.cf_node_table@[q].data {
            nir_cf_node_data::Block(_) => seq![],
            nir_cf_node_data::If(f) => seq![f.then_list, f.else_list],
            nir_cf_node_data::Loop(l) => seq![l.body],
            nir_cf_node_data::Function(m) => seq![m.body],
        }
    }

    /// Link node `n` stands in region `k` of control-flow node `q`.
    pub open spec fn in_region_of(&self, n: usize, q: int, k: int) -> bool {
        &&& 0 <= q < self.cf_node_table@.len()
        &&& 0 <= k < self.regions_of(q).len()
        &&& self.regions_of(q)[k].elems(self.nodes@).contains(n)
    }

    /// Link node `n` stands in a list that some control-flow node encloses.
    pub open spec fn in_region(&self, n: usize) -> bool {
        exists|q: int, k: int| self.in_region_of(n, q, k)
    }

    /// What holds of record `i` of the table of functions: its body, if it
    /// has one, is a function body that names it as its function.
    pub open spec fn function_inv(&self, i: int) -> bool {
        &&& self.function_table@[i].node == i + self.function_offset
        &&& self.function_table@[i].inv(self)
        &&& self.function_table@[i].impl_ matches Some(h) ==> {
            self.cf_node_table@[h as int].data->Function_0.function == i
        }
    }

    /// What holds of record `i` of the table of variables.
    pub open spec fn variable_inv(&self, i: int) -> bool {
        self.variable_table@[i].node == i + self.variable_offset
    }

    /// What holds of record `i` of the table of control-flow nodes by itself.
    pub open spec fn cf_node_local_inv(&self, i: int) -> bool {
        let c = self.cf_node_table@[i];
        &&& c.node == i + self.cf_node_offset
        &&& c.node < self.nodes@.len()
        &&& c.parent_inv(self)
        &&& c.data_inv(self, i)
    }

    /// Control-flow node `i` lies `d` levels below a function body: climbing
    /// from parent to parent, the `d`-th step ends at a node without parent.
    pub open spec fn has_depth(&self, i: int, d: nat) -> bool
        decreases d,
    {
        match self.cf_node_table@[i].parent {
            None => d == 0,
            Some(p) => d > 0 && p < self.cf_node_table@.len() && self.has_depth(
                p as int,
                (d - 1) as nat,
            ),
        }
    }

    /// Control-flow node `i` lies at some depth: the nesting has no cycle
    /// through it.
    pub open spec fn is_rooted(&self, i: int) -> bool {
        exists|d: nat| self.has_depth(i, d)
    }

    /// What holds of record `i` of the table of control-flow nodes.
    pub open spec fn cf_node_inv(&self, i: int) -> bool {
        &&& self.cf_node_local_inv(i)
        &&& self.cf_node_table@[i].placed(self)
        &&& self.is_rooted(i)
    }

    /// What holds of record `i` of the table of instructions.
    pub open spec fn instr_inv(&self, i: int) -> bool {
        let x = self.instr_table@[i];
        &&& x.node == i + self.instr_offset
        &&& x.data_inv(self)
        &&& x.carried_def() matches Some(d) ==> d.parent_instr == i
    }

    /// What holds of record `i` of the table of phi sources.
    pub open spec fn phi_src_inv(&self, i: int) -> bool {
        &&& self.phi_src_table@[i].node == i + self.phi_src_offset
        &&& self.phi_src_table@[i].inv(self)
    }

    /// The shader's own lists hold functions and variables, every record of
    /// every table is well formed and embeds the link node whose handle is the
    /// record's index plus the table's offset, and the nesting of control-flow
    /// nodes has no cycle.
    pub open spec fn wf(&self) -> bool {
        &&& self.functions.holds(self.nodes@, self.function_offset, self.function_table@.len())
        &&& self.variables.holds(self.nodes@, self.variable_offset, self.variable_table@.len())
        &&& forall|i: int| 0 <= i < self.function_table@.len() ==> #[trigger] self.function_inv(i)
        &&& forall|i: int| 0 <= i < self.variable_table@.len() ==> #[trigger] self.variable_inv(i)
        &&& forall|i: int| 0 <= i < self.cf_node_table@.len() ==> #[trigger] self.cf_node_inv(i)
        &&& forall|i: int| 0 <= i < self.instr_table@.len() ==> #[trigger] self.instr_inv(i)
        &&& forall|i: int| 0 <= i < self.phi_src_table@.len() ==> #[trigger] self.phi_src_inv(i)
    }
}

impl nir_shader {
    /// The block whose control-flow node has handle `h`.
    pub open spec fn spec_block_at(&self, h: usize) -> nir_block {
        self.cf_node_table@[h as int].data->Block_0
    }

    /// The block whose control-flow node has handle `h`.
    pub fn block_at(&self, h: usize) -> (r: &nir_block)
        requires
            self.is_block(h),
        ensures
            *r == self.spec_block_at(h),
    {
        self.cf_node_table[h].as_block().unwrap()
    }
}

impl nir_shader {
    /// The control-flow node next to link node `n` in its list, before it if
    /// `rev` and after it otherwise, or `None` if a sentinel stands there.
    pub open spec fn sibling(&self, n: usize, rev: bool) -> Option<&nir_cf_node> {
        let s = nodes_from(self.nodes@, n, rev);
        if s.len() > 0 {
            Some(&self.cf_at(s[0]))
        } else {
            None
        }
    }

    /// Every control-flow node of a well-formed shader belongs to the shader,
    /// and so does its variant, which is well formed.
    pub proof fn lemma_cf_node_is_in(&self, i: int)
        requires
            self.wf(),
            0 <= i < self.cf_node_table@.len(),
        ensures
            self.cf_node_table@[i].is_in(self),
            self.cf_node_table@[i].index(self) == i,
            self.cf_node_table@[i].node < self.nodes@.len(),
            self.cf_node_table@[i].parent_inv(self),
            self.cf_node_table@[i].placed(self),
            match self.cf_node_table@[i].data {
                nir_cf_node_data::Block(b) => b.is_in(self) && b.inv(self),
                nir_cf_node_data::If(f) => f.is_in(self) && f.inv(self),
                nir_cf_node_data::Loop(l) => l.is_in(self) && l.inv(self),
                nir_cf_node_data::Function(m) => m.is_in(self) && m.inv(self),
            },
    {
        assert(self.cf_node_inv(i));
    }

    /// Every instruction of a well-formed shader has a well-formed variant,
    /// and the value it produces, if it produces one, belongs to the shader.
    pub proof fn lemma_instr_is_in(&self, i: int)
        requires
            self.wf(),
            0 <= i < self.instr_table@.len(),
        ensures
            self.instr_table@[i].is_in(self),
            self.instr_table@[i].data_inv(self),
            self.instr_table@[i].spec_def(self) matches Some(d) ==> d.is_in(self),
    {
        assert(self.instr_inv(i));
    }

    /// A control-flow node that stands in a list stands in a region of its
    /// parent, and a conditional or a loop always stands in a list. Returns
    /// the region and the node's position in it.
    pub proof fn lemma_cf_node_in_region(&self, c: nir_cf_node) -> (r: (exec_list, int))
        requires
            self.wf(),
            c.is_in(self),
            c.is_linked(self) || c.data is If || c.data is Loop,
        ensures
            c.is_linked(self),
            c.parent is Some,
            self.is_region(r.0, c.parent.unwrap()),
            exists|k: int| self.in_region_of(c.node, c.parent.unwrap() as int, k),
            0 <= r.1 < r.0.elems(self.nodes@).len(),
            r.0.elems(self.nodes@)[r.1] == c.node,
            self.cf_records(r.0)[r.1] == c,
    {
        assert(self.cf_node_inv(c.index(self)));
        let (q, k) = choose|q: int, k: int| self.in_region_of(c.node, q, k);
        let l = self.regions_of(q)[k];
        assert(self.cf_node_inv(q));
        assert(self.is_region(l, q as usize));
        let e = l.elems(self.nodes@);
        let j = choose|j: int| 0 <= j < e.len() && e[j] == c.node;
        lemma_elem_walks(self.nodes@, l, j);
        assert(self.cf_records(l)[j] == c);
        assert(self.in_region_of(c.node, c.parent.unwrap() as int, k));
        (l, j)
    }

    /// In a list of control-flow nodes, the sibling before the first node and
    /// the sibling after the last are absent; any other sibling is the node
    /// next to it in list order.
    pub proof fn lemma_siblings(&self, l: exec_list, j: int)
        requires
            l.holds(self.nodes@, self.cf_node_offset, self.cf_node_table@.len()),
            0 <= j < l.elems(self.nodes@).len(),
        ensures
            self.sibling(l.elems(self.nodes@)[j], true) == if j == 0 {
                None
            } else {
                Some(&self.cf_records(l)[j - 1])
            },
            self.sibling(l.elems(self.nodes@)[j], false) == if j == l.elems(self.nodes@).len() - 1 {
                None
            } else {
                Some(&self.cf_records(l)[j + 1])
            },
    {
        lemma_elem_walks(self.nodes@, l, j);
    }

    /// A cursor may start at a control-flow node that stands in a list, in
    /// either direction.
    pub proof fn lemma_cf_node_can_walk(&self, c: nir_cf_node, rev: bool)
        requires
            self.wf(),
            c.is_in(self),
            c.is_linked(self),
        ensures
            crate::exec_list::can_walk(
                self.nodes@,
                c.node,
                rev,
                self.cf_node_offset,
                self.cf_node_table@.len(),
            ),
    {
        let (l, j) = self.lemma_cf_node_in_region(c);
        lemma_elem_walks(self.nodes@, l, j);
        let e = l.elems(self.nodes@);
        let s = nodes_from(self.nodes@, c.node, rev);
        assert forall|i: int| 0 <= i < s.len() implies self.cf_node_offset <= (#[trigger] s[i])
            < self.cf_node_offset + self.cf_node_table@.len() by {
            if rev {
                assert(s[i] == e[j - 1 - i]);
            } else {
                assert(s[i] == e[j + 1 + i]);
            }
        }
    }

    /// A cursor over the shader's functions, in list order.
    pub fn iter_functions(&self) -> (it: ExecListIter<'_, nir_function>)
        requires
            self.functions.holds(self.nodes@, self.function_offset, self.function_table@.len()),
        ensures
            it.wf(),
            it@ == self.functions.records(self.nodes@, self.function_offset, self.function_table@),
    {
        ExecListIter::new(&self.nodes, &self.function_table, &self.functions, self.function_offset)
    }

    /// A cursor over the shader's variables, in list order.
    pub fn iter_variables(&self) -> (it: ExecListIter<'_, nir_variable>)
        requires
            self.variables.holds(self.nodes@, self.variable_offset, self.variable_table@.len()),
        ensures
            it.wf(),
            it@ == self.variables.records(self.nodes@, self.variable_offset, self.variable_table@),
    {
        ExecListIter::new(&self.nodes, &self.variable_table, &self.variables, self.variable_offset)
    }
}

} // verus!
