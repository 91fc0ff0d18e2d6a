//! Checking a shader that came from elsewhere: one pass over every table that
//! decides whether the shader is well formed.

use crate::cf::{nir_cf_node, nir_cf_node_data, nir_function_impl};
use crate::exec_list::{all_embedded, exec_list, lemma_distinct_fit};
use crate::instr::{
    nir_alu_src, nir_instr_data, nir_intrinsic_info, nir_src, nir_tex_src,
    NIR_ALU_MAX_INPUTS, NIR_INTRINSIC_MAX_CONST_INDEX, NIR_INTRINSIC_NUM_INDEX_FLAGS,
};
use crate::shader::nir_shader;
use vstd::prelude::*;

verus! {

impl nir_intrinsic_info {
    /// Whether the descriptor is well formed.
    pub fn is_wf(&self) -> (r: bool)
        ensures
            r == self.wf(),
    {
        let mut k: usize = 0;
        while k < NIR_INTRINSIC_NUM_INDEX_FLAGS
            invariant
                k <= NIR_INTRINSIC_NUM_INDEX_FLAGS,
                forall|j: int|
                    0 <= j < k ==> (#[trigger] self.index_map@[j]) <= NIR_INTRINSIC_MAX_CONST_INDEX,
            decreases NIR_INTRINSIC_NUM_INDEX_FLAGS - k,
        {
            if self.index_map[k] as usize > NIR_INTRINSIC_MAX_CONST_INDEX {
                return false;
            }
            k += 1;
        }
        true
    }
}

impl nir_shader {
    /// If instruction `i` is an intrinsic, it has a well-formed descriptor.
    spec fn intrinsic_described(&self, i: int) -> bool {
        self.instr_table@[i].data matches nir_instr_data::Intrinsic(n) ==> n.described(self)
    }

    /// Every intrinsic instruction has a well-formed descriptor.
    spec fn intrinsics_described(&self) -> bool {
        forall|i: int|
            0 <= i < self.instr_table@.len() ==> #[trigger] self.intrinsic_described(i)
    }

    fn check_intrinsics_described(&self) -> (r: bool)
        ensures
            r == self.intrinsics_described(),
    {
        let mut i: usize = 0;
        while i < self.instr_table.len()
            invariant
                i <= self.instr_table@.len(),
                forall|j: int| 0 <= j < i ==> #[trigger] self.intrinsic_described(j),
            decreases self.instr_table@.len() - i,
        {
            match &self.instr_table[i].data {
                nir_instr_data::Intrinsic(n) => {
                    if n.intrinsic as usize >= self.intrinsic_infos.len()
                        || !self.intrinsic_infos[n.intrinsic as usize].is_wf() {
                        assert(!self.intrinsic_described(i as int));
                        return false;
                    }
                    assert(self.intrinsic_described(i as int));
                },
                _ => {
                    assert(self.intrinsic_described(i as int));
                },
            }
            i += 1;
        }
        true
    }

    fn check_block(&self, h: usize) -> (r: bool)
        ensures
            r == self.is_block(h),
    {
        h < self.cf_node_table.len() && self.cf_node_table[h].as_block().is_some()
    }

    fn check_block_opt(&self, h: Option<usize>) -> (r: bool)
        ensures
            r == (h matches Some(t) ==> self.is_block(t)),
    {
        match h {
            Some(t) => self.check_block(t),
            None => true,
        }
    }

    fn check_src(&self, src: &nir_src) -> (r: bool)
        requires
            self.intrinsics_described(),
        ensures
            r == src.inv(self),
    {
        if src.ssa >= self.instr_table.len() {
            return false;
        }
        assert(self.intrinsic_described(src.ssa as int));
        self.instr_table[src.ssa].def(self).is_some()
    }

    fn check_srcs(&self, srcs: &Vec<nir_src>) -> (r: bool)
        requires
            self.intrinsics_described(),
        ensures
            r == (forall|k: int| 0 <= k < srcs@.len() ==> (#[trigger] srcs@[k]).inv(self)),
    {
        let mut k: usize = 0;
        while k < srcs.len()
            invariant
                k <= srcs@.len(),
                self.intrinsics_described(),
                forall|j: int| 0 <= j < k ==> (#[trigger] srcs@[j]).inv(self),
            decreases srcs@.len() - k,
        {
            if !self.check_src(&srcs[k]) {
                return false;
            }
            k += 1;
        }
        true
    }

    fn check_alu_srcs(&self, srcs: &Vec<nir_alu_src>) -> (r: bool)
        requires
            self.intrinsics_described(),
        ensures
            r == (forall|k: int| 0 <= k < srcs@.len() ==> (#[trigger] srcs@[k]).src.inv(self)),
    {
        let mut k: usize = 0;
        while k < srcs.len()
            invariant
                k <= srcs@.len(),
                self.intrinsics_described(),
                forall|j: int| 0 <= j < k ==> (#[trigger] srcs@[j]).src.inv(self),
            decreases srcs@.len() - k,
        {
            if !self.check_src(&srcs[k].src) {
                return false;
            }
            k += 1;
        }
        true
    }

    fn check_tex_srcs(&self, srcs: &Vec<nir_tex_src>) -> (r: bool)
        requires
            self.intrinsics_described(),
        ensures
            r == (forall|k: int| 0 <= k < srcs@.len() ==> (#[trigger] srcs@[k]).src.inv(self)),
    {
        let mut k: usize = 0;
        while k < srcs.len()
            invariant
                k <= srcs@.len(),
                self.intrinsics_described(),
                forall|j: int| 0 <= j < k ==> (#[trigger] srcs@[j]).src.inv(self),
            decreases srcs@.len() - k,
        {
            if !self.check_src(&srcs[k].src) {
                return false;
            }
            k += 1;
        }
        true
    }

    fn check_instr_data(&self, i: usize) -> (r: bool)
        requires
            i < self.instr_table@.len(),
            self.intrinsics_described(),
        ensures
            r == self.instr_table@[i as int].data_inv(self),
    {
        assert(self.intrinsic_described(i as int));
        match &self.instr_table[i].data {
            nir_instr_data::Alu(a) => {
                if a.op as usize >= self.op_infos.len() {
                    return false;
                }
                let info = a.info(self);
                info.num_inputs as usize <= NIR_ALU_MAX_INPUTS && a.src.len()
                    == info.num_inputs as usize && self.check_alu_srcs(&a.src)
            },
            nir_instr_data::Jump(j) => self.check_block_opt(j.target) && self.check_block_opt(
                j.else_target,
            ),
            nir_instr_data::Tex(t) => t.num_srcs as usize == t.src.len() && self.check_tex_srcs(
                &t.src,
            ),
            nir_instr_data::Intrinsic(n) => {
                let info = n.info(self);
                n.src.len() == info.num_srcs as usize && self.check_srcs(&n.src)
            },
            nir_instr_data::LoadConst(l) => l.value.len() == l.def.num_components as usize,
            nir_instr_data::Undef(_) => true,
            nir_instr_data::Phi(p) => p.srcs.walk_table(
                &self.nodes,
                self.phi_src_offset,
                self.phi_src_table.len(),
            ).is_some(),
        }
    }

    fn check_instr(&self, i: usize) -> (r: bool)
        requires
            i < self.instr_table@.len(),
            self.intrinsics_described(),
        ensures
            r == self.instr_inv(i as int),
    {
        let x = &self.instr_table[i];
        if x.node < self.instr_offset || x.node - self.instr_offset != i {
            return false;
        }
        if !self.check_instr_data(i) {
            return false;
        }
        match &x.data {
            nir_instr_data::Alu(a) => a.def.parent_instr == i,
            nir_instr_data::Jump(_) => true,
            nir_instr_data::Tex(t) => t.def.parent_instr == i,
            nir_instr_data::Intrinsic(n) => n.def.parent_instr == i,
            nir_instr_data::LoadConst(l) => l.def.parent_instr == i,
            nir_instr_data::Undef(u) => u.def.parent_instr == i,
            nir_instr_data::Phi(p) => p.def.parent_instr == i,
        }
    }

    fn check_instrs(&self) -> (r: bool)
        ensures
            r == (forall|i: int| 0 <= i < self.instr_table@.len() ==> #[trigger] self.instr_inv(i)),
    {
        if !self.check_intrinsics_described() {
            proof {
                if forall|i: int|
                    0 <= i < self.instr_table@.len() ==> #[trigger] self.instr_inv(i) {
                    assert forall|i: int| 0 <= i < self.instr_table@.len() implies #[trigger]
                        self.intrinsic_described(i) by {
                        assert(self.instr_inv(i));
                    }
                }
            }
            return false;
        }
        let mut i: usize = 0;
        while i < self.instr_table.len()
            invariant
                i <= self.instr_table@.len(),
                self.intrinsics_described(),
                forall|j: int| 0 <= j < i ==> #[trigger] self.instr_inv(j),
            decreases self.instr_table@.len() - i,
        {
            if !self.check_instr(i) {
                return false;
            }
            i += 1;
        }
        true
    }

    fn check_phi_srcs(&self) -> (r: bool)
        requires
            self.intrinsics_described(),
        ensures
            r == (forall|i: int|
                0 <= i < self.phi_src_table@.len() ==> #[trigger] self.phi_src_inv(i)),
    {
        let mut i: usize = 0;
        while i < self.phi_src_table.len()
            invariant
                i <= self.phi_src_table@.len(),
                self.intrinsics_described(),
                forall|j: int| 0 <= j < i ==> #[trigger] self.phi_src_inv(j),
            decreases self.phi_src_table@.len() - i,
        {
            let x = &self.phi_src_table[i];
            let ok = x.node >= self.phi_src_offset && x.node - self.phi_src_offset == i
                && self.check_block(x.pred) && self.check_src(&x.src);
            if !ok {
                assert(!self.phi_src_inv(i as int));
                return false;
            }
            i += 1;
        }
        true
    }

    fn check_functions(&self) -> (r: bool)
        ensures
            r == (forall|i: int|
                0 <= i < self.function_table@.len() ==> #[trigger] self.function_inv(i)),
    {
        let mut i: usize = 0;
        while i < self.function_table.len()
            invariant
                i <= self.function_table@.len(),
                forall|j: int| 0 <= j < i ==> #[trigger] self.function_inv(j),
            decreases self.function_table@.len() - i,
        {
            let x = &self.function_table[i];
            let impl_ok = match x.impl_ {
                Some(h) => h < self.cf_node_table.len()
                    && match self.cf_node_table[h].as_function_impl() {
                    Some(m) => m.function == i,
                    None => false,
                },
                None => true,
            };
            let ok = x.node >= self.function_offset && x.node - self.function_offset == i
                && impl_ok;
            if !ok {
                assert(!self.function_inv(i as int));
                return false;
            }
            i += 1;
        }
        true
    }

    fn check_variables(&self) -> (r: bool)
        ensures
            r == (forall|i: int|
                0 <= i < self.variable_table@.len() ==> #[trigger] self.variable_inv(i)),
    {
        let mut i: usize = 0;
        while i < self.variable_table.len()
            invariant
                i <= self.variable_table@.len(),
                forall|j: int| 0 <= j < i ==> #[trigger] self.variable_inv(j),
            decreases self.variable_table@.len() - i,
        {
            let x = &self.variable_table[i];
            let ok = x.node >= self.variable_offset && x.node - self.variable_offset == i;
            if !ok {
                assert(!self.variable_inv(i as int));
                return false;
            }
            i += 1;
        }
        true
    }
}

/// One of the handles in `s` is `h`.
spec fn holds_handle(s: Seq<usize>, h: int) -> bool {
    exists|j: int| 0 <= j < s.len() && #[trigger] s[j] == h
}

/// Sets the mark of every record that embeds one of the link nodes `v`.
fn mark(seen: &mut Vec<bool>, v: &Vec<usize>, offset: usize)
    requires
        all_embedded(v@, offset, old(seen)@.len()),
    ensures
        final(seen)@.len() == old(seen)@.len(),
        forall|x: int|
            0 <= x < old(seen)@.len() ==> #[trigger] final(seen)@[x] == (old(seen)@[x]
                || holds_handle(v@, x + offset)),
{
    let mut j: usize = 0;
    while j < v.len()
        invariant
            j <= v@.len(),
            seen@.len() == old(seen)@.len(),
            all_embedded(v@, offset, seen@.len()),
            forall|x: int|
                0 <= x < seen@.len() ==> #[trigger] seen@[x] == (old(seen)@[x] || holds_handle(
                    v@.subrange(0, j as int),
                    x + offset,
                )),
        decreases v@.len() - j,
    {
        let h: usize = v[j];
        assert(offset <= v@[j as int] < offset + seen@.len());
        seen.set(h - offset, true);
        proof {
            let shorter = v@.subrange(0, j as int);
            let longer = v@.subrange(0, j + 1);
            assert forall|x: int| 0 <= x < seen@.len() implies #[trigger] seen@[x] == (old(
                seen,
            )@[x] || holds_handle(longer, x + offset)) by {
                if holds_handle(shorter, x + offset) {
                    let i = choose|i: int| 0 <= i < shorter.len() && shorter[i] == x + offset;
                    assert(longer[i] == x + offset);
                }
                if holds_handle(longer, x + offset) && !holds_handle(shorter, x + offset) {
                    let i = choose|i: int| 0 <= i < longer.len() && longer[i] == x + offset;
                    if i < j {
                        assert(shorter[i] == x + offset);
                    }
                }
                if x == h - offset {
                    assert(longer[j as int] == x + offset);
                }
            }
        }
        j += 1;
    }
    assert(v@.subrange(0, j as int) =~= v@);
}

impl nir_shader {
    /// Region `k` of control-flow node `p` holds the control-flow node at
    /// index `x`.
    spec fn region_holds(&self, p: int, k: int, x: int) -> bool {
        &&& 0 <= p < self.cf_node_table@.len()
        &&& 0 <= k < self.regions_of(p).len()
        &&& holds_handle(self.regions_of(p)[k].elems(self.nodes@), x + self.cf_node_offset)
    }

    /// The control-flow node at index `x` stands in a region of a control-flow
    /// node before `q`.
    spec fn covered(&self, x: int, q: int) -> bool {
        exists|p: int, k: int| p < q && self.region_holds(p, k, x)
    }

    /// The control-flow node at index `x` stands in one of the first `m`
    /// regions of control-flow node `q`.
    spec fn covered_by(&self, x: int, q: int, m: int) -> bool {
        exists|k: int| k < m && self.region_holds(q, k, x)
    }

    /// The marks say which control-flow nodes stand in a region of a
    /// control-flow node before `q`, or in one of the first `m` regions of `q`.
    spec fn marks_cover(&self, seen: Seq<bool>, q: int, m: int) -> bool {
        &&& seen.len() == self.cf_node_table@.len()
        &&& forall|x: int|
            0 <= x < seen.len() ==> #[trigger] seen[x] == (self.covered(x, q) || self.covered_by(
                x,
                q,
                m,
            ))
    }

    /// What holds of control-flow node `i` apart from its regions.
    spec fn cf_node_basic_inv(&self, i: int) -> bool {
        let c = self.cf_node_table@[i];
        &&& c.node == i + self.cf_node_offset
        &&& c.node < self.nodes@.len()
        &&& c.parent_inv(self)
        &&& match c.data {
            nir_cf_node_data::Block(b) => b.cf_node == i && b.inv(self),
            nir_cf_node_data::If(f) => f.cf_node == i,
            nir_cf_node_data::Loop(l) => l.cf_node == i,
            nir_cf_node_data::Function(m) => {
                &&& m.cf_node == i
                &&& m.function < self.function_table@.len()
                &&& self.function_table@[m.function as int].impl_ == Some(m.cf_node)
                &&& self.is_block(m.end_block)
                &&& self.cf_node_table@[m.end_block as int].parent == Some(m.cf_node)
            },
        }
    }

    /// The first `m` lists that control-flow node `i` encloses are structured
    /// regions.
    spec fn cf_node_regions_inv(&self, i: int, m: int) -> bool {
        forall|k: int| 0 <= k < m ==> self.is_region(#[trigger] self.regions_of(i)[k], i as usize)
    }

    proof fn lemma_cf_node_local_inv(&self, i: int)
        requires
            0 <= i < self.cf_node_table@.len(),
        ensures
            self.cf_node_local_inv(i) <==> self.cf_node_basic_inv(i) && self.cf_node_regions_inv(
                i,
                self.regions_of(i).len() as int,
            ),
    {
        let lists = self.regions_of(i);
        if self.cf_node_basic_inv(i) && self.cf_node_regions_inv(i, lists.len() as int) {
            if lists.len() >= 1 {
                assert(self.is_region(lists[0], i as usize));
            }
            if lists.len() >= 2 {
                assert(self.is_region(lists[1], i as usize));
            }
        }
    }

    fn check_region(&self, l: &exec_list, parent: usize) -> (r: Option<Vec<usize>>)
        ensures
            r is Some <==> self.is_region(*l, parent),
            r matches Some(v) ==> v@ == l.elems(self.nodes@),
    {
        let v = match l.walk_table(&self.nodes, self.cf_node_offset, self.cf_node_table.len()) {
            Some(v) => v,
            None => {
                return None;
            },
        };
        let ghost recs = self.cf_records(*l);
        let n: usize = v.len();
        if n == 0 {
            return None;
        }
        let mut k: usize = 0;
        let mut block_before: bool = false;
        while k < n
            invariant
                k <= n,
                n == v@.len(),
                v@ == l.elems(self.nodes@),
                recs == self.cf_records(*l),
                all_embedded(v@, self.cf_node_offset, self.cf_node_table@.len() as nat),
                block_before == (k > 0 && recs[k - 1].data is Block),
                k > 0 ==> recs[0].data is Block,
                forall|j: int| 0 <= j < k ==> (#[trigger] recs[j]).parent == Some(parent),
                forall|j: int| 0 <= j < k - 1 ==> #[trigger] Self::block_follows(recs, j),
            decreases n - k,
        {
            assert(self.cf_node_offset <= v@[k as int] < self.cf_node_offset
                + self.cf_node_table@.len());
            let c = &self.cf_node_table[v[k] - self.cf_node_offset];
            assert(*c == recs[k as int]);
            let is_block = c.as_block().is_some();
            let parent_ok = match c.parent {
                Some(p) => p == parent,
                None => false,
            };
            if !parent_ok || !(is_block || block_before) {
                proof {
                    if k > 0 && !(is_block || block_before) {
                        assert(!Self::block_follows(recs, k - 1));
                    }
                }
                return None;
            }
            proof {
                if k > 0 {
                    assert(Self::block_follows(recs, k - 1));
                }
            }
            block_before = is_block;
            k += 1;
        }
        if !block_before {
            return None;
        }
        Some(v)
    }

    fn regions(&self, i: usize) -> (r: Vec<exec_list>)
        requires
            i < self.cf_node_table@.len(),
        ensures
            r@ == self.regions_of(i as int),
    {
        let mut out: Vec<exec_list> = Vec::new();
        match &self.cf_node_table[i].data {
            nir_cf_node_data::Block(_) => {},
            nir_cf_node_data::If(f) => {
                out.push(f.then_list);
                out.push(f.else_list);
            },
            nir_cf_node_data::Loop(l) => {
                out.push(l.body);
            },
            nir_cf_node_data::Function(m) => {
                out.push(m.body);
            },
        }
        assert(out@ =~= self.regions_of(i as int));
        out
    }

    fn check_function_impl(&self, m: &nir_function_impl) -> (r: bool)
        ensures
            r == {
                &&& m.function < self.function_table@.len()
                &&& self.function_table@[m.function as int].impl_ == Some(m.cf_node)
                &&& self.is_block(m.end_block)
                &&& self.cf_node_table@[m.end_block as int].parent == Some(m.cf_node)
            },
    {
        if m.function >= self.function_table.len() {
            return false;
        }
        let named = match self.function_table[m.function].impl_ {
            Some(h) => h == m.cf_node,
            None => false,
        };
        if !named || !self.check_block(m.end_block) {
            return false;
        }
        match self.cf_node_table[m.end_block].parent {
            Some(p) => p == m.cf_node,
            None => false,
        }
    }

    fn check_cf_node_basic(&self, i: usize) -> (r: bool)
        requires
            i < self.cf_node_table@.len(),
        ensures
            r == self.cf_node_basic_inv(i as int),
    {
        let c = &self.cf_node_table[i];
        if c.node < self.cf_node_offset || c.node - self.cf_node_offset != i || c.node
            >= self.nodes.len() {
            return false;
        }
        let is_function = c.as_function_impl().is_some();
        let parent_ok = match c.parent {
            Some(p) => !is_function && p < self.cf_node_table.len()
                && !self.cf_node_table[p].as_block().is_some(),
            None => is_function,
        };
        if !parent_ok {
            return false;
        }
        match &c.data {
            nir_cf_node_data::Block(b) => {
                b.cf_node == i && b.instr_list.walk_table(
                    &self.nodes,
                    self.instr_offset,
                    self.instr_table.len(),
                ).is_some() && {
                    let first = self.check_block_opt(b.successors[0]);
                    let second = self.check_block_opt(b.successors[1]);
                    proof {
                        if first && second {
                            assert forall|k: int| 0 <= k < 2 implies ((
                            #[trigger] b.successors@[k]) matches Some(t) ==> self.is_block(t)) by {
                                assert(k == 0 || k == 1);
                            }
                        }
                    }
                    first && second
                }
            },
            nir_cf_node_data::If(f) => f.cf_node == i,
            nir_cf_node_data::Loop(l) => l.cf_node == i,
            nir_cf_node_data::Function(m) => m.cf_node == i && self.check_function_impl(m),
        }
    }

    proof fn lemma_covered_next(&self, x: int, q: int)
        requires
            0 <= q < self.cf_node_table@.len(),
        ensures
            self.covered(x, q + 1) <==> self.covered(x, q) || self.covered_by(
                x,
                q,
                self.regions_of(q).len() as int,
            ),
            !self.covered_by(x, q + 1, 0),
    {
        if self.covered(x, q + 1) {
            let (p, k) = choose|p: int, k: int| p < q + 1 && self.region_holds(p, k, x);
            if p < q {
                assert(self.covered(x, q));
            } else {
                assert(self.covered_by(x, q, self.regions_of(q).len() as int));
            }
        }
        if self.covered(x, q) {
            let (p, k) = choose|p: int, k: int| p < q && self.region_holds(p, k, x);
            assert(p < q + 1 && self.region_holds(p, k, x));
        }
        if self.covered_by(x, q, self.regions_of(q).len() as int) {
            let k = choose|k: int|
                k < self.regions_of(q).len() as int && self.region_holds(q, k, x);
            assert(q < q + 1 && self.region_holds(q, k, x));
        }
    }

    fn check_cf_node_local(&self, i: usize, seen: &mut Vec<bool>) -> (r: bool)
        requires
            i < self.cf_node_table@.len(),
            self.marks_cover(old(seen)@, i as int, 0),
        ensures
            r == self.cf_node_local_inv(i as int),
            r ==> self.marks_cover(final(seen)@, i + 1, 0),
    {
        proof {
            self.lemma_cf_node_local_inv(i as int);
        }
        if !self.check_cf_node_basic(i) {
            return false;
        }
        let lists = self.regions(i);
        let mut k: usize = 0;
        while k < lists.len()
            invariant
                k <= lists@.len(),
                i < self.cf_node_table@.len(),
                lists@ == self.regions_of(i as int),
                self.cf_node_regions_inv(i as int, k as int),
                self.marks_cover(seen@, i as int, k as int),
            decreases lists@.len() - k,
        {
            match self.check_region(&lists[k], i) {
                Some(v) => {
                    let ghost before = seen@;
                    mark(seen, &v, self.cf_node_offset);
                    proof {
                        assert forall|x: int| 0 <= x < seen@.len() implies #[trigger] seen@[x] == (
                        self.covered(x, i as int) || self.covered_by(x, i as int, k + 1)) by {
                            assert(seen@[x] == (before[x] || holds_handle(
                                v@,
                                x + self.cf_node_offset,
                            )));
                            if holds_handle(v@, x + self.cf_node_offset) {
                                assert(self.region_holds(i as int, k as int, x));
                            }
                            if self.covered_by(x, i as int, k as int) {
                                let j = choose|j: int| j < k && self.region_holds(i as int, j, x);
                                assert(j < k + 1 && self.region_holds(i as int, j, x));
                            }
                            if self.covered_by(x, i as int, k + 1) {
                                let j = choose|j: int|
                                    j < k + 1 && self.region_holds(i as int, j, x);
                                if j < k {
                                    assert(self.covered_by(x, i as int, k as int));
                                }
                            }
                        }
                    }
                },
                None => {
                    return false;
                },
            }
            k += 1;
        }
        proof {
            assert forall|x: int| 0 <= x < seen@.len() implies #[trigger] seen@[x] == (self.covered(
                x,
                i + 1,
            ) || self.covered_by(x, i + 1, 0)) by {
                self.lemma_covered_next(x, i as int);
            }
        }
        true
    }

    /// The control-flow node reached from node `i` by climbing `j` parents.
    spec fn climb(&self, i: int, j: nat) -> int
        decreases j,
    {
        if j == 0 {
            i
        } else {
            self.cf_node_table@[self.climb(i, (j - 1) as nat)].parent.unwrap() as int
        }
    }

    proof fn lemma_depth_unique(&self, i: int, d1: nat, d2: nat)
        requires
            self.has_depth(i, d1),
            self.has_depth(i, d2),
        ensures
            d1 == d2,
        decreases d1,
    {
        match self.cf_node_table@[i].parent {
            None => {},
            Some(p) => {
                self.lemma_depth_unique(p as int, (d1 - 1) as nat, (d2 - 1) as nat);
            },
        }
    }

    proof fn lemma_climb(&self, i: int, d: nat, j: nat)
        requires
            0 <= i < self.cf_node_table@.len(),
            self.has_depth(i, d),
            j <= d,
        ensures
            0 <= self.climb(i, j) < self.cf_node_table@.len(),
            self.has_depth(self.climb(i, j), (d - j) as nat),
        decreases j,
    {
        if j > 0 {
            self.lemma_climb(i, d, (j - 1) as nat);
        }
    }

    proof fn lemma_depth_bounded(&self, i: int, d: nat)
        requires
            0 <= i < self.cf_node_table@.len(),
            self.has_depth(i, d),
        ensures
            d < self.cf_node_table@.len(),
    {
        let s = Seq::new(d + 1, |j: int| self.climb(i, j as nat));
        assert forall|j: int| 0 <= j < s.len() implies 0 <= #[trigger] s[j]
            < self.cf_node_table@.len() by {
            self.lemma_climb(i, d, j as nat);
        }
        assert forall|j: int, k: int| 0 <= j < s.len() && 0 <= k < s.len() && j != k implies s[j]
            != s[k] by {
            self.lemma_climb(i, d, j as nat);
            self.lemma_climb(i, d, k as nat);
            if s[j] == s[k] {
                self.lemma_depth_unique(s[j], (d - j) as nat, (d - k) as nat);
            }
        }
        lemma_distinct_fit(s, self.cf_node_table@.len());
    }

    fn check_rooted(&self, i: usize) -> (r: bool)
        requires
            i < self.cf_node_table@.len(),
            forall|j: int|
                0 <= j < self.cf_node_table@.len() ==> #[trigger] self.cf_node_local_inv(j),
        ensures
            r == self.is_rooted(i as int),
    {
        let n: usize = self.cf_node_table.len();
        let mut cur: usize = i;
        let mut steps: usize = 0;
        loop
            invariant
                n == self.cf_node_table@.len(),
                i < n,
                cur < n,
                steps <= n,
                forall|j: int| 0 <= j < n ==> #[trigger] self.cf_node_local_inv(j),
                forall|d: nat| #[trigger]
                    self.has_depth(cur as int, d) ==> self.has_depth(i as int, (d + steps) as nat),
                forall|d: nat| #[trigger]
                    self.has_depth(i as int, d) ==> d >= steps && self.has_depth(
                        cur as int,
                        (d - steps) as nat,
                    ),
            decreases n - steps,
        {
            match self.cf_node_table[cur].parent {
                None => {
                    assert(self.has_depth(cur as int, 0));
                    assert(self.has_depth(i as int, (0 + steps) as nat));
                    return true;
                },
                Some(p) => {
                    if steps >= n {
                        proof {
                            if self.is_rooted(i as int) {
                                let d = choose|d: nat| self.has_depth(i as int, d);
                                self.lemma_depth_bounded(i as int, d);
                                assert(self.has_depth(cur as int, (d - steps) as nat));
                            }
                        }
                        return false;
                    }
                    proof {
                        assert(self.cf_node_local_inv(cur as int));
                        assert forall|d: nat| #[trigger]
                            self.has_depth(p as int, d) implies self.has_depth(
                            i as int,
                            (d + (steps + 1)) as nat,
                        ) by {
                            assert(self.has_depth(cur as int, d + 1));
                        }
                        assert forall|d: nat| #[trigger] self.has_depth(i as int, d) implies d
                            >= steps + 1 && self.has_depth(p as int, (d - (steps + 1)) as nat) by {
                            assert(self.has_depth(cur as int, (d - steps) as nat));
                        }
                    }
                    cur = p;
                    steps += 1;
                },
            }
        }
    }

    fn check_cf_nodes(&self) -> (r: bool)
        ensures
            r == (forall|i: int|
                0 <= i < self.cf_node_table@.len() ==> #[trigger] self.cf_node_inv(i)),
    {
        let n: usize = self.cf_node_table.len();
        let mut seen: Vec<bool> = Vec::new();
        while seen.len() < n
            invariant
                seen@.len() <= n,
                forall|x: int| 0 <= x < seen@.len() ==> !(#[trigger] seen@[x]),
            decreases n - seen@.len(),
        {
            seen.push(false);
        }
        let mut i: usize = 0;
        while i < n
            invariant
                i <= n,
                n == self.cf_node_table@.len(),
                self.marks_cover(seen@, i as int, 0),
                forall|j: int| 0 <= j < i ==> #[trigger] self.cf_node_local_inv(j),
            decreases n - i,
        {
            if !self.check_cf_node_local(i, &mut seen) {
                assert(!self.cf_node_inv(i as int));
                return false;
            }
            i += 1;
        }
        let mut i: usize = 0;
        while i < n
            invariant
                i <= n,
                n == self.cf_node_table@.len(),
                self.marks_cover(seen@, n as int, 0),
                forall|j: int| 0 <= j < n ==> #[trigger] self.cf_node_local_inv(j),
                forall|j: int| 0 <= j < i ==> #[trigger] self.cf_node_inv(j),
            decreases n - i,
        {
            let c = &self.cf_node_table[i];
            assert(self.cf_node_local_inv(i as int));
            let unlinked = self.nodes[c.node].next.is_none() && self.nodes[c.node].prev.is_none();
            let may_stand_alone = c.as_block().is_some() || c.as_function_impl().is_some();
            proof {
                let h = c.node;
                assert(seen@[i as int] == (self.covered(i as int, n as int) || self.covered_by(
                    i as int,
                    n as int,
                    0,
                )));
                if self.in_region(h) {
                    let (q, k) = choose|q: int, k: int| self.in_region_of(h, q, k);
                    let e = self.regions_of(q)[k].elems(self.nodes@);
                    let j = choose|j: int| 0 <= j < e.len() && e[j] == h;
                    assert(e[j] == i + self.cf_node_offset);
                    assert(q < n && self.region_holds(q, k, i as int));
                }
                if self.covered(i as int, n as int) {
                    let (q, k) = choose|q: int, k: int| q < n && self.region_holds(q, k, i as int);
                    let e = self.regions_of(q)[k].elems(self.nodes@);
                    let j = choose|j: int| 0 <= j < e.len() && #[trigger] e[j] == i
                        + self.cf_node_offset;
                    assert(e[j] == h);
                    assert(self.in_region_of(h, q, k));
                }
            }
            if !(seen[i] || (may_stand_alone && unlinked)) {
                assert(!self.cf_node_inv(i as int));
                return false;
            }
            if !self.check_rooted(i) {
                assert(!self.cf_node_inv(i as int));
                return false;
            }
            i += 1;
        }
        true
    }

    /// Decides whether the shader is well formed, by walking every list and
    /// checking every record. Every other function of this crate may be used
    /// on a shader for which this returns `true`.
    pub fn validate(&self) -> (r: bool)
        ensures
            r == self.wf(),
    {
        if self.functions.walk_table(
            &self.nodes,
            self.function_offset,
            self.function_table.len(),
        ).is_none() {
            return false;
        }
        if self.variables.walk_table(
            &self.nodes,
            self.variable_offset,
            self.variable_table.len(),
        ).is_none() {
            return false;
        }
        if !self.check_functions() || !self.check_variables() || !self.check_instrs() {
            return false;
        }
        proof {
            assert forall|i: int|
                0 <= i < self.instr_table@.len() implies #[trigger] self.intrinsic_described(i) by {
                assert(self.instr_inv(i));
            }
        }
        self.check_phi_srcs() && self.check_cf_nodes()
    }
}

} // verus!
