//! Instructions: one record per instruction, its variant decided by a tag,
//! and the definitions and sources that tie instructions together.

use crate::alu_type::ALUType;
use crate::cf::nir_block;
use crate::const_value::{low_bits, low_bits_signed, nir_const_value};
use crate::exec_list::{exec_list, ExecListIter};
use crate::shader::nir_shader;
use vstd::prelude::*;
use vstd::slice::slice_subrange;

verus! {

/// The number of an ALU operation: an index into the shader's table of
/// operation descriptors.
pub type nir_op = u32;

/// The number of an intrinsic: an index into the shader's table of intrinsic
/// descriptors.
pub type nir_intrinsic_op = u32;

/// The most components a value can have, and so the length of a swizzle.
pub const NIR_MAX_VEC_COMPONENTS: usize = 16;

/// The most operands an ALU operation can take.
pub const NIR_ALU_MAX_INPUTS: usize = 16;

/// How many index names there are.
pub const NIR_INTRINSIC_NUM_INDEX_FLAGS: usize = 27;

/// How many constant slots an intrinsic instruction carries.
pub const NIR_INTRINSIC_MAX_CONST_INDEX: usize = 8;

/// The value that an instruction produces. The handle of a definition is the
/// index of the instruction that produces it.
#[derive(Clone, Copy, Debug, PartialEq, Eq)]
pub struct nir_def {
    pub parent_instr: usize,
    pub num_components: u8,
    pub bit_size: u8,
}

/// A site that reads a definition, given by the definition's handle.
#[derive(Clone, Copy, Debug, PartialEq, Eq)]
pub struct nir_src {
    pub ssa: usize,
}

/// An operand of an ALU instruction: a source, and for each component of the
/// operand the component of the source that it reads.
#[derive(Clone, Copy, Debug, PartialEq, Eq)]
pub struct nir_alu_src {
    pub src: nir_src,
    pub swizzle: [u8; NIR_MAX_VEC_COMPONENTS],
}

/// An operand of a texture instruction, with the role it plays.
#[derive(Clone, Copy, Debug, PartialEq, Eq)]
pub struct nir_tex_src {
    pub src: nir_src,
    pub src_type: u32,
}

/// The descriptor of an ALU operation. An entry of `input_sizes` that is zero
/// leaves the operand's size to the instruction's result.
#[derive(Debug, PartialEq, Eq)]
pub struct nir_op_info {
    pub name: String,
    pub num_inputs: u8,
    pub output_size: u8,
    pub input_sizes: [u8; NIR_ALU_MAX_INPUTS],
}

/// An ALU instruction: an operation applied to operands.
#[derive(Debug, PartialEq, Eq)]
pub struct nir_alu_instr {
    pub def: nir_def,
    pub op: nir_op,
    pub src: Vec<nir_alu_src>,
}

/// A texture instruction.
#[derive(Debug, PartialEq, Eq)]
pub struct nir_tex_instr {
    pub def: nir_def,
    pub op: u32,
    pub src: Vec<nir_tex_src>,
    pub num_srcs: u32,
}

/// The descriptor of an intrinsic. `index_map` gives, for each index name, one
/// more than the constant slot that holds it, or zero if the intrinsic does
/// not use that name.
#[derive(Debug, PartialEq, Eq)]
pub struct nir_intrinsic_info {
    pub name: String,
    pub num_srcs: u8,
    pub has_dest: bool,
    pub num_indices: u8,
    pub index_map: [u8; NIR_INTRINSIC_NUM_INDEX_FLAGS],
}

/// An intrinsic instruction, with the constant slots that hold its indices.
#[derive(Debug, PartialEq, Eq)]
pub struct nir_intrinsic_instr {
    pub def: nir_def,
    pub intrinsic: nir_intrinsic_op,
    pub num_components: u8,
    pub const_index: [i32; NIR_INTRINSIC_MAX_CONST_INDEX],
    pub src: Vec<nir_src>,
}

/// A constant: one cell per component of its result.
#[derive(Debug, PartialEq, Eq)]
pub struct nir_load_const_instr {
    pub def: nir_def,
    pub value: Vec<nir_const_value>,
}

/// An undefined value.
#[derive(Clone, Copy, Debug, PartialEq, Eq)]
pub struct nir_undef_instr {
    pub def: nir_def,
}

/// One incoming value of a phi: the predecessor block it comes from, by the
/// handle of the block's control-flow node, and the source read there.
#[derive(Clone, Copy, Debug, PartialEq, Eq)]
pub struct nir_phi_src {
    pub node: usize,
    pub pred: usize,
    pub src: nir_src,
}

/// A phi, with the list of its incoming values.
#[derive(Clone, Copy, Debug, PartialEq, Eq)]
pub struct nir_phi_instr {
    pub def: nir_def,
    pub srcs: exec_list,
}

/// A jump. The targets are handles of control-flow nodes that are blocks.
#[derive(Clone, Copy, Debug, PartialEq, Eq)]
pub struct nir_jump_instr {
    pub type_: u32,
    pub target: Option<usize>,
    pub else_target: Option<usize>,
}

/// The tag of an instruction.
#[derive(Clone, Copy, Debug, PartialEq, Eq)]
pub enum nir_instr_type {
    nir_instr_type_alu,
    nir_instr_type_jump,
    nir_instr_type_tex,
    nir_instr_type_intrinsic,
    nir_instr_type_load_const,
    nir_instr_type_undef,
    nir_instr_type_phi,
}

/// What an instruction is, with the fields of its variant.
#[derive(Debug, PartialEq, Eq)]
pub enum nir_instr_data {
    Alu(nir_alu_instr),
    Jump(nir_jump_instr),
    Tex(nir_tex_instr),
    Intrinsic(nir_intrinsic_instr),
    LoadConst(nir_load_const_instr),
    Undef(nir_undef_instr),
    Phi(nir_phi_instr),
}

/// An instruction: the handle of its embedded link node, and its variant.
#[derive(Debug, PartialEq, Eq)]
pub struct nir_instr {
    pub node: usize,
    pub data: nir_instr_data,
}

/// The bit sizes at which a constant can be read.
pub open spec fn is_const_bit_size(bit_size: u8) -> bool {
    bit_size == 8 || bit_size == 16 || bit_size == 32 || bit_size == 64
}

impl nir_def {
    /// The definition is one of the shader's: the one that its parent
    /// instruction produces.
    pub open spec fn is_in(&self, shader: &nir_shader) -> bool {
        &&& self.parent_instr < shader.instr_table@.len()
        &&& shader.instr_table@[self.parent_instr as int].spec_def(shader) == Some(*self)
    }
}

impl nir_src {
    /// The source reads an instruction of the shader that produces a value.
    pub open spec fn inv(&self, shader: &nir_shader) -> bool {
        &&& self.ssa < shader.instr_table@.len()
        &&& shader.instr_table@[self.ssa as int].spec_def(shader) is Some
    }
}

impl nir_alu_instr {
    /// The descriptor of the instruction's operation.
    pub open spec fn spec_info(&self, shader: &nir_shader) -> nir_op_info {
        shader.op_infos@[self.op as int]
    }

    /// The operation has a descriptor, the instruction has as many operands as
    /// the descriptor says, and each reads a value.
    pub open spec fn inv(&self, shader: &nir_shader) -> bool {
        &&& self.op < shader.op_infos@.len()
        &&& self.spec_info(shader).num_inputs <= NIR_ALU_MAX_INPUTS
        &&& self.src@.len() == self.spec_info(shader).num_inputs
        &&& forall|k: int| 0 <= k < self.src@.len() ==> (#[trigger] self.src@[k]).src.inv(shader)
    }
}

impl nir_tex_instr {
    /// The instruction has as many operands as it declares.
    pub open spec fn sized(&self) -> bool {
        self.src@.len() == self.num_srcs
    }

    /// The instruction has as many operands as it declares, and each reads a
    /// value.
    pub open spec fn inv(&self, shader: &nir_shader) -> bool {
        &&& self.sized()
        &&& forall|k: int| 0 <= k < self.src@.len() ==> (#[trigger] self.src@[k]).src.inv(shader)
    }
}

impl nir_intrinsic_info {
    /// Every index name that is used maps to a constant slot that exists.
    pub open spec fn wf(&self) -> bool {
        forall|k: int|
            0 <= k < NIR_INTRINSIC_NUM_INDEX_FLAGS ==> (#[trigger] self.index_map@[k])
                <= NIR_INTRINSIC_MAX_CONST_INDEX
    }
}

impl nir_intrinsic_instr {
    /// The descriptor of the instruction's intrinsic.
    pub open spec fn spec_info(&self, shader: &nir_shader) -> nir_intrinsic_info {
        shader.intrinsic_infos@[self.intrinsic as int]
    }

    /// The intrinsic has a well-formed descriptor.
    pub open spec fn described(&self, shader: &nir_shader) -> bool {
        &&& self.intrinsic < shader.intrinsic_infos@.len()
        &&& self.spec_info(shader).wf()
    }

    /// The intrinsic is described, the instruction has as many operands as the
    /// descriptor says, and each reads a value.
    pub open spec fn inv(&self, shader: &nir_shader) -> bool {
        &&& self.described(shader)
        &&& self.src@.len() == self.spec_info(shader).num_srcs
        &&& forall|k: int| 0 <= k < self.src@.len() ==> (#[trigger] self.src@[k]).inv(shader)
    }

    /// The intrinsic uses the index name `name`.
    pub open spec fn has_index(&self, shader: &nir_shader, name: u32) -> bool {
        &&& self.described(shader)
        &&& name < NIR_INTRINSIC_NUM_INDEX_FLAGS
        &&& self.spec_info(shader).index_map@[name as int] > 0
    }

    /// The constant slot that holds the index `name`.
    pub open spec fn slot(&self, shader: &nir_shader, name: u32) -> i32 {
        self.const_index@[self.spec_info(shader).index_map@[name as int] - 1]
    }
}

impl nir_load_const_instr {
    /// There is one constant cell per component.
    pub open spec fn inv(&self) -> bool {
        self.value@.len() == self.def.num_components
    }
}

impl nir_phi_src {
    /// The predecessor is a block, and the source reads a value.
    pub open spec fn inv(&self, shader: &nir_shader) -> bool {
        &&& shader.is_block(self.pred)
        &&& self.src.inv(shader)
    }
}

impl nir_phi_instr {
    /// The list of incoming values is a list of phi sources.
    pub open spec fn inv(&self, shader: &nir_shader) -> bool {
        self.srcs.holds(shader.nodes@, shader.phi_src_offset, shader.phi_src_table@.len())
    }
}

impl nir_jump_instr {
    /// Each target that is present is a block.
    pub open spec fn inv(&self, shader: &nir_shader) -> bool {
        &&& self.target matches Some(t) ==> shader.is_block(t)
        &&& self.else_target matches Some(t) ==> shader.is_block(t)
    }
}

impl nir_instr {
    /// The index of the instruction in the shader's table.
    pub open spec fn index(&self, shader: &nir_shader) -> int {
        self.node - shader.instr_offset
    }

    /// The value that the instruction produces, if it produces one.
    pub open spec fn spec_def(&self, shader: &nir_shader) -> Option<nir_def> {
        match self.data {
            nir_instr_data::Alu(a) => Some(a.def),
            nir_instr_data::Jump(_) => None,
            nir_instr_data::Tex(t) => Some(t.def),
            nir_instr_data::Intrinsic(n) => if n.spec_info(shader).has_dest {
                Some(n.def)
            } else {
                None
            },
            nir_instr_data::LoadConst(l) => Some(l.def),
            nir_instr_data::Undef(u) => Some(u.def),
            nir_instr_data::Phi(p) => Some(p.def),
        }
    }

    /// The definition that the variant carries, whether or not it is in use.
    pub open spec fn carried_def(&self) -> Option<nir_def> {
        match self.data {
            nir_instr_data::Alu(a) => Some(a.def),
            nir_instr_data::Jump(_) => None,
            nir_instr_data::Tex(t) => Some(t.def),
            nir_instr_data::Intrinsic(n) => Some(n.def),
            nir_instr_data::LoadConst(l) => Some(l.def),
            nir_instr_data::Undef(u) => Some(u.def),
            nir_instr_data::Phi(p) => Some(p.def),
        }
    }

    /// The variant is well formed.
    pub open spec fn data_inv(&self, shader: &nir_shader) -> bool {
        match self.data {
            nir_instr_data::Alu(a) => a.inv(shader),
            nir_instr_data::Jump(j) => j.inv(shader),
            nir_instr_data::Tex(t) => t.inv(shader),
            nir_instr_data::Intrinsic(n) => n.inv(shader),
            nir_instr_data::LoadConst(l) => l.inv(),
            nir_instr_data::Undef(_) => true,
            nir_instr_data::Phi(p) => p.inv(shader),
        }
    }

    /// The record is one of the shader's.
    pub open spec fn is_in(&self, shader: &nir_shader) -> bool {
        &&& shader.instr_offset <= self.node < shader.instr_offset + shader.instr_table@.len()
        &&& shader.instr_table@[self.index(shader)] == *self
    }
}

// The index names: what a constant slot of an intrinsic instruction can stand for.
pub const NIR_INTRINSIC_BASE: u32 = 0;

pub const NIR_INTRINSIC_RANGE_BASE: u32 = 1;

pub const NIR_INTRINSIC_RANGE: u32 = 2;

pub const NIR_INTRINSIC_WRITE_MASK: u32 = 3;

pub const NIR_INTRINSIC_STREAM_ID: u32 = 4;

pub const NIR_INTRINSIC_COMPONENT: u32 = 5;

pub const NIR_INTRINSIC_INTERP_MODE: u32 = 6;

pub const NIR_INTRINSIC_REDUCTION_OP: u32 = 7;

pub const NIR_INTRINSIC_CLUSTER_SIZE: u32 = 8;

pub const NIR_INTRINSIC_IMAGE_DIM: u32 = 9;

pub const NIR_INTRINSIC_IMAGE_ARRAY: u32 = 10;

pub const NIR_INTRINSIC_FORMAT: u32 = 11;

pub const NIR_INTRINSIC_ACCESS: u32 = 12;

pub const NIR_INTRINSIC_ALIGN_MUL: u32 = 13;

pub const NIR_INTRINSIC_ALIGN_OFFSET: u32 = 14;

pub const NIR_INTRINSIC_EXECUTION_SCOPE: u32 = 15;

pub const NIR_INTRINSIC_MEMORY_SCOPE: u32 = 16;

pub const NIR_INTRINSIC_MEMORY_SEMANTICS: u32 = 17;

pub const NIR_INTRINSIC_MEMORY_MODES: u32 = 18;

pub const NIR_INTRINSIC_FLAGS: u32 = 19;

pub const NIR_INTRINSIC_ATOMIC_OP: u32 = 20;

pub const NIR_INTRINSIC_SRC_TYPE: u32 = 21;

pub const NIR_INTRINSIC_DEST_TYPE: u32 = 22;

pub const NIR_INTRINSIC_ROUNDING_MODE: u32 = 23;

pub const NIR_INTRINSIC_SATURATE: u32 = 24;

pub const NIR_INTRINSIC_MATRIX_LAYOUT: u32 = 25;

pub const NIR_INTRINSIC_NUM_MATRICES: u32 = 26;

// Enumerations of the producer that this crate passes through as numbers.
pub type glsl_sampler_dim = u32;

pub type pipe_format = u32;

pub type gl_access_qualifier = u32;

pub type mesa_scope = u32;

pub type nir_memory_semantics = u32;

pub type nir_variable_mode = u32;

pub type nir_atomic_op = u32;

pub type nir_rounding_mode = u32;

pub type glsl_matrix_layout = u32;

/// The constant instruction that produces `d`, if a constant instruction does.
pub open spec fn load_const_of(shader: &nir_shader, d: nir_def) -> Option<&nir_load_const_instr> {
    shader.instr_table@[d.parent_instr as int].spec_as_load_const()
}

/// Component `comp` of `d` as a signed number, if `d` is a constant.
pub open spec fn const_int(shader: &nir_shader, d: nir_def, comp: u8) -> Option<i64> {
    match load_const_of(shader, d) {
        Some(l) => Some(low_bits_signed(l.value@[comp as int].bits, d.bit_size) as i64),
        None => None,
    }
}

/// Component `comp` of `d` as an unsigned number, if `d` is a constant.
pub open spec fn const_uint(shader: &nir_shader, d: nir_def, comp: u8) -> Option<u64> {
    match load_const_of(shader, d) {
        Some(l) => Some(low_bits(l.value@[comp as int].bits, d.bit_size) as u64),
        None => None,
    }
}

/// Component `comp` of `d` can be read if `d` is a constant: the component
/// exists, and the bit size is one that a constant can have.
pub open spec fn const_readable(shader: &nir_shader, d: nir_def, comp: u8) -> bool {
    load_const_of(shader, d) is Some ==> comp < d.num_components && is_const_bit_size(d.bit_size)
}

impl nir_def {
    /// The instruction that produces the definition.
    pub fn parent_instr<'a>(&self, shader: &'a nir_shader) -> (r: &'a nir_instr)
        requires
            self.parent_instr < shader.instr_table@.len(),
        ensures
            *r == shader.instr_table@[self.parent_instr as int],
    {
        &shader.instr_table[self.parent_instr]
    }
}

/// What stands for a definition: a definition itself, or a source that reads
/// one.
pub trait AsDef {
    /// The value belongs to the shader.
    spec fn valid_in(&self, shader: &nir_shader) -> bool;

    /// The definition that the value stands for.
    spec fn def_in(&self, shader: &nir_shader) -> nir_def;

    /// The definition that the value stands for.
    fn as_def<'a>(&'a self, shader: &'a nir_shader) -> (d: &'a nir_def)
        requires
            shader.wf(),
            self.valid_in(shader),
        ensures
            *d == self.def_in(shader),
            d.is_in(shader),
    ;

    /// How many bits each component of the value has.
    fn bit_size(&self, shader: &nir_shader) -> (r: u8)
        requires
            shader.wf(),
            self.valid_in(shader),
        ensures
            r == self.def_in(shader).bit_size,
    {
        self.as_def(shader).bit_size
    }

    /// How many components the value has.
    fn num_components(&self, shader: &nir_shader) -> (r: u8)
        requires
            shader.wf(),
            self.valid_in(shader),
        ensures
            r == self.def_in(shader).num_components,
    {
        self.as_def(shader).num_components
    }

    /// The constant instruction that produces the value, if one does.
    fn as_load_const<'a>(&'a self, shader: &'a nir_shader) -> (r: Option<&'a nir_load_const_instr>)
        requires
            shader.wf(),
            self.valid_in(shader),
        ensures
            r == load_const_of(shader, self.def_in(shader)),
            r matches Some(l) ==> l.inv() && l.def == self.def_in(shader),
    {
        let d = self.as_def(shader);
        proof {
            shader.lemma_instr_is_in(d.parent_instr as int);
        }
        d.parent_instr(shader).as_load_const()
    }

    /// Whether the value is known when the shader is compiled.
    fn is_const(&self, shader: &nir_shader) -> (r: bool)
        requires
            shader.wf(),
            self.valid_in(shader),
        ensures
            r == (load_const_of(shader, self.def_in(shader)) is Some),
    {
        self.as_load_const(shader).is_some()
    }

    /// Component `comp` as a signed number, sign-extended from the value's bit
    /// size, or `None` if the value is not a constant.
    fn comp_as_int(&self, comp: u8, shader: &nir_shader) -> (r: Option<i64>)
        requires
            shader.wf(),
            self.valid_in(shader),
            const_readable(shader, self.def_in(shader), comp),
        ensures
            r == const_int(shader, self.def_in(shader), comp),
    {
        match self.as_load_const(shader) {
            Some(load) => {
                let i: usize = comp as usize;
                let bit_size: u8 = self.bit_size(shader);
                let values = load.values();
                Some(
                    if bit_size == 8 {
                        values[i].i8_() as i64
                    } else if bit_size == 16 {
                        values[i].i16_() as i64
                    } else if bit_size == 32 {
                        values[i].i32_() as i64
                    } else {
                        values[i].i64_()
                    },
                )
            },
            None => None,
        }
    }

    /// Component `comp` as an unsigned number, zero-extended from the value's
    /// bit size, or `None` if the value is not a constant.
    fn comp_as_uint(&self, comp: u8, shader: &nir_shader) -> (r: Option<u64>)
        requires
            shader.wf(),
            self.valid_in(shader),
            const_readable(shader, self.def_in(shader), comp),
        ensures
            r == const_uint(shader, self.def_in(shader), comp),
    {
        match self.as_load_const(shader) {
            Some(load) => {
                let i: usize = comp as usize;
                let bit_size: u8 = self.bit_size(shader);
                let values = load.values();
                Some(
                    if bit_size == 8 {
                        values[i].u8_() as u64
                    } else if bit_size == 16 {
                        values[i].u16_() as u64
                    } else if bit_size == 32 {
                        values[i].u32_() as u64
                    } else {
                        values[i].u64_()
                    },
                )
            },
            None => None,
        }
    }

    /// A scalar as a signed number, or `None` if it is not a constant.
    fn as_int(&self, shader: &nir_shader) -> (r: Option<i64>)
        requires
            shader.wf(),
            self.valid_in(shader),
            self.def_in(shader).num_components == 1,
            const_readable(shader, self.def_in(shader), 0),
        ensures
            r == const_int(shader, self.def_in(shader), 0),
    {
        self.comp_as_int(0, shader)
    }

    /// A scalar as an unsigned number, or `None` if it is not a constant.
    fn as_uint(&self, shader: &nir_shader) -> (r: Option<u64>)
        requires
            shader.wf(),
            self.valid_in(shader),
            self.def_in(shader).num_components == 1,
            const_readable(shader, self.def_in(shader), 0),
        ensures
            r == const_uint(shader, self.def_in(shader), 0),
    {
        self.comp_as_uint(0, shader)
    }

    /// Whether the value is a scalar constant whose unsigned value is zero.
    fn is_zero(&self, shader: &nir_shader) -> (r: bool)
        requires
            shader.wf(),
            self.valid_in(shader),
            self.def_in(shader).num_components == 1 ==> const_readable(
                shader,
                self.def_in(shader),
                0,
            ),
        ensures
            r == (self.def_in(shader).num_components == 1 && const_uint(
                shader,
                self.def_in(shader),
                0,
            ) == Some(0u64)),
    {
        self.num_components(shader) == 1 && match self.as_uint(shader) {
            Some(v) => v == 0,
            None => false,
        }
    }
}

impl AsDef for nir_def {
    open spec fn valid_in(&self, shader: &nir_shader) -> bool {
        self.is_in(shader)
    }

    open spec fn def_in(&self, shader: &nir_shader) -> nir_def {
        *self
    }

    fn as_def<'a>(&'a self, shader: &'a nir_shader) -> (d: &'a nir_def) {
        self
    }
}

impl AsDef for nir_src {
    open spec fn valid_in(&self, shader: &nir_shader) -> bool {
        self.inv(shader)
    }

    open spec fn def_in(&self, shader: &nir_shader) -> nir_def {
        shader.instr_table@[self.ssa as int].spec_def(shader).unwrap()
    }

    fn as_def<'a>(&'a self, shader: &'a nir_shader) -> (d: &'a nir_def) {
        proof {
            shader.lemma_instr_is_in(self.ssa as int);
        }
        shader.instr_table[self.ssa].def(shader).unwrap()
    }
}

impl nir_alu_instr {
    /// The descriptor of the instruction's operation.
    pub fn info<'a>(&self, shader: &'a nir_shader) -> (r: &'a nir_op_info)
        requires
            self.op < shader.op_infos@.len(),
        ensures
            *r == self.spec_info(shader),
    {
        &shader.op_infos[self.op as usize]
    }

    /// How many components operand `src_idx` has: what the descriptor fixes
    /// for it, or else as many as the result.
    pub fn src_components(&self, src_idx: u8, shader: &nir_shader) -> (r: u8)
        requires
            self.inv(shader),
            src_idx < self.spec_info(shader).num_inputs,
        ensures
            r == if self.spec_info(shader).input_sizes@[src_idx as int] > 0 {
                self.spec_info(shader).input_sizes@[src_idx as int]
            } else {
                self.def.num_components
            },
    {
        let info = self.info(shader);
        let fixed: u8 = info.input_sizes[src_idx as usize];
        if fixed > 0 {
            fixed
        } else {
            self.def.num_components
        }
    }

    /// The operands, as many as the descriptor says.
    pub fn srcs_as_slice(&self, shader: &nir_shader) -> (r: &[nir_alu_src])
        requires
            self.inv(shader),
        ensures
            r@ == self.src@,
            r@.len() == self.spec_info(shader).num_inputs,
    {
        let n: usize = self.info(shader).num_inputs as usize;
        let r = slice_subrange(self.src.as_slice(), 0, n);
        assert(r@ =~= self.src@);
        r
    }

    /// Operand `idx`.
    pub fn get_src(&self, idx: usize, shader: &nir_shader) -> (r: &nir_alu_src)
        requires
            self.inv(shader),
            idx < self.spec_info(shader).num_inputs,
        ensures
            *r == self.src@[idx as int],
    {
        &self.srcs_as_slice(shader)[idx]
    }
}

impl nir_op_info {
    /// The name of the operation.
    pub fn name(&self) -> (r: &str)
        ensures
            r@ == self.name@,
    {
        self.name.as_str()
    }
}

impl nir_alu_src {
    /// The bit size of the value that the operand reads.
    pub fn bit_size(&self, shader: &nir_shader) -> (r: u8)
        requires
            shader.wf(),
            self.src.inv(shader),
        ensures
            r == self.src.def_in(shader).bit_size,
    {
        self.src.bit_size(shader)
    }

    /// Component `comp` of the operand as a signed number: the component of
    /// the source that the swizzle selects.
    pub fn comp_as_int(&self, comp: u8, shader: &nir_shader) -> (r: Option<i64>)
        requires
            shader.wf(),
            self.src.inv(shader),
            comp < NIR_MAX_VEC_COMPONENTS,
            const_readable(shader, self.src.def_in(shader), self.swizzle@[comp as int]),
        ensures
            r == const_int(shader, self.src.def_in(shader), self.swizzle@[comp as int]),
    {
        self.src.comp_as_int(self.swizzle[comp as usize], shader)
    }

    /// Component `comp` of the operand as an unsigned number: the component of
    /// the source that the swizzle selects.
    pub fn comp_as_uint(&self, comp: u8, shader: &nir_shader) -> (r: Option<u64>)
        requires
            shader.wf(),
            self.src.inv(shader),
            comp < NIR_MAX_VEC_COMPONENTS,
            const_readable(shader, self.src.def_in(shader), self.swizzle@[comp as int]),
        ensures
            r == const_uint(shader, self.src.def_in(shader), self.swizzle@[comp as int]),
    {
        self.src.comp_as_uint(self.swizzle[comp as usize], shader)
    }
}

impl nir_tex_instr {
    /// The operands, as many as the instruction declares.
    pub fn srcs_as_slice(&self) -> (r: &[nir_tex_src])
        requires
            self.sized(),
        ensures
            r@ == self.src@,
            r@.len() == self.num_srcs,
    {
        let n: usize = self.num_srcs as usize;
        let r = slice_subrange(self.src.as_slice(), 0, n);
        assert(r@ =~= self.src@);
        r
    }

    /// Operand `idx`.
    pub fn get_src(&self, idx: usize) -> (r: &nir_tex_src)
        requires
            self.sized(),
            idx < self.num_srcs,
        ensures
            *r == self.src@[idx as int],
    {
        &self.srcs_as_slice()[idx]
    }
}

/// `r` is the largest power of two that divides `x`.
pub open spec fn is_largest_power_of_two_dividing(r: u32, x: u32) -> bool {
    &&& r != 0
    &&& r & ((r - 1) as u32) == 0
    &&& x % r == 0
    &&& (x / r) % 2 == 1
}

/// The lowest bit that is set in `x`.
pub open spec fn lowest_set_bit(x: u32) -> u32 {
    x & !((x - 1) as u32)
}

/// The alignment known of a value that is `offset` more than a multiple of
/// `mul`: `mul` itself if `offset` is zero, and otherwise the lowest bit set
/// in `offset`.
pub open spec fn effective_align(mul: u32, offset: u32) -> u32 {
    if offset == 0 {
        mul
    } else {
        lowest_set_bit(offset)
    }
}

/// The lowest bit set in a number that is not zero is the largest power of two
/// that divides it.
pub proof fn lemma_lowest_set_bit(x: u32)
    requires
        x != 0,
    ensures
        is_largest_power_of_two_dividing(lowest_set_bit(x), x),
{
    let r: u32 = lowest_set_bit(x);
    assert(x != 0 ==> (x & !((x - 1) as u32)) != 0) by (bit_vector);
    assert(x != 0 ==> {
        let r = x & !((x - 1) as u32);
        r & ((r - 1) as u32) == 0
    }) by (bit_vector);
    assert(x != 0 ==> {
        let r = x & !((x - 1) as u32);
        x % r == 0 && (x / r) % 2 == 1
    }) by (bit_vector);
}

impl nir_intrinsic_instr {
    /// The descriptor of the instruction's intrinsic.
    pub fn info<'a>(&self, shader: &'a nir_shader) -> (r: &'a nir_intrinsic_info)
        requires
            self.intrinsic < shader.intrinsic_infos@.len(),
        ensures
            *r == self.spec_info(shader),
    {
        &shader.intrinsic_infos[self.intrinsic as usize]
    }

    /// The operands, as many as the descriptor says.
    pub fn srcs_as_slice(&self, shader: &nir_shader) -> (r: &[nir_src])
        requires
            self.inv(shader),
        ensures
            r@ == self.src@,
            r@.len() == self.spec_info(shader).num_srcs,
    {
        let n: usize = self.info(shader).num_srcs as usize;
        let r = slice_subrange(self.src.as_slice(), 0, n);
        assert(r@ =~= self.src@);
        r
    }

    /// Operand `idx`.
    pub fn get_src(&self, idx: usize, shader: &nir_shader) -> (r: &nir_src)
        requires
            self.inv(shader),
            idx < self.spec_info(shader).num_srcs,
        ensures
            *r == self.src@[idx as int],
    {
        &self.srcs_as_slice(shader)[idx]
    }

    /// The index `name` of the instruction, read from the constant slot that
    /// the descriptor assigns to the name. The intrinsic must use the name.
    pub fn get_const_index(&self, name: u32, shader: &nir_shader) -> (r: u32)
        requires
            self.has_index(shader, name),
        ensures
            r == self.slot(shader, name) as u32,
    {
        let name: usize = name as usize;
        let idx: u8 = self.info(shader).index_map[name];
        let slot: i32 = self.const_index[(idx - 1) as usize];
        #[verifier::truncate]
        (slot as u32)
    }

    /// The `BASE` index.
    pub fn base(&self, shader: &nir_shader) -> (r: i32)
        requires
            self.has_index(shader, NIR_INTRINSIC_BASE),
        ensures
            r == self.slot(shader, NIR_INTRINSIC_BASE),
    {
        proof {
            let slot: i32 = self.slot(shader, NIR_INTRINSIC_BASE);
            assert((slot as u32) as i32 == slot) by (bit_vector);
        }
        #[verifier::truncate]
        (self.get_const_index(NIR_INTRINSIC_BASE, shader) as i32)
    }

    /// The `RANGE_BASE` index.
    pub fn range_base(&self, shader: &nir_shader) -> (r: i32)
        requires
            self.has_index(shader, NIR_INTRINSIC_RANGE_BASE),
        ensures
            r == self.slot(shader, NIR_INTRINSIC_RANGE_BASE),
    {
        proof {
            let slot: i32 = self.slot(shader, NIR_INTRINSIC_RANGE_BASE);
            assert((slot as u32) as i32 == slot) by (bit_vector);
        }
        #[verifier::truncate]
        (self.get_const_index(NIR_INTRINSIC_RANGE_BASE, shader) as i32)
    }

    /// The `RANGE` index.
    pub fn range(&self, shader: &nir_shader) -> (r: i32)
        requires
            self.has_index(shader, NIR_INTRINSIC_RANGE),
        ensures
            r == self.slot(shader, NIR_INTRINSIC_RANGE),
    {
        proof {
            let slot: i32 = self.slot(shader, NIR_INTRINSIC_RANGE);
            assert((slot as u32) as i32 == slot) by (bit_vector);
        }
        #[verifier::truncate]
        (self.get_const_index(NIR_INTRINSIC_RANGE, shader) as i32)
    }

    /// The `WRITE_MASK` index.
    pub fn write_mask(&self, shader: &nir_shader) -> (r: u32)
        requires
            self.has_index(shader, NIR_INTRINSIC_WRITE_MASK),
        ensures
            r == self.slot(shader, NIR_INTRINSIC_WRITE_MASK) as u32,
    {
        self.get_const_index(NIR_INTRINSIC_WRITE_MASK, shader)
    }

    /// The `STREAM_ID` index.
    pub fn stream_id(&self, shader: &nir_shader) -> (r: u32)
        requires
            self.has_index(shader, NIR_INTRINSIC_STREAM_ID),
        ensures
            r == self.slot(shader, NIR_INTRINSIC_STREAM_ID) as u32,
    {
        self.get_const_index(NIR_INTRINSIC_STREAM_ID, shader)
    }

    /// The `COMPONENT` index.
    pub fn component(&self, shader: &nir_shader) -> (r: u32)
        requires
            self.has_index(shader, NIR_INTRINSIC_COMPONENT),
        ensures
            r == self.slot(shader, NIR_INTRINSIC_COMPONENT) as u32,
    {
        self.get_const_index(NIR_INTRINSIC_COMPONENT, shader)
    }

    /// The `INTERP_MODE` index.
    pub fn interp_mode(&self, shader: &nir_shader) -> (r: u32)
        requires
            self.has_index(shader, NIR_INTRINSIC_INTERP_MODE),
        ensures
            r == self.slot(shader, NIR_INTRINSIC_INTERP_MODE) as u32,
    {
        self.get_const_index(NIR_INTRINSIC_INTERP_MODE, shader)
    }

    /// The `REDUCTION_OP` index: the number of an ALU operation.
    pub fn reduction_op(&self, shader: &nir_shader) -> (r: nir_op)
        requires
            self.has_index(shader, NIR_INTRINSIC_REDUCTION_OP),
        ensures
            r == self.slot(shader, NIR_INTRINSIC_REDUCTION_OP) as u32,
    {
        self.get_const_index(NIR_INTRINSIC_REDUCTION_OP, shader)
    }

    /// The `CLUSTER_SIZE` index.
    pub fn cluster_size(&self, shader: &nir_shader) -> (r: u32)
        requires
            self.has_index(shader, NIR_INTRINSIC_CLUSTER_SIZE),
        ensures
            r == self.slot(shader, NIR_INTRINSIC_CLUSTER_SIZE) as u32,
    {
        self.get_const_index(NIR_INTRINSIC_CLUSTER_SIZE, shader)
    }

    /// The `IMAGE_DIM` index.
    pub fn image_dim(&self, shader: &nir_shader) -> (r: glsl_sampler_dim)
        requires
            self.has_index(shader, NIR_INTRINSIC_IMAGE_DIM),
        ensures
            r == self.slot(shader, NIR_INTRINSIC_IMAGE_DIM) as u32,
    {
        self.get_const_index(NIR_INTRINSIC_IMAGE_DIM, shader)
    }

    /// The `IMAGE_ARRAY` index: whether the image is an array.
    pub fn image_array(&self, shader: &nir_shader) -> (r: bool)
        requires
            self.has_index(shader, NIR_INTRINSIC_IMAGE_ARRAY),
        ensures
            r == (self.slot(shader, NIR_INTRINSIC_IMAGE_ARRAY) != 0),
    {
        proof {
            let slot: i32 = self.slot(shader, NIR_INTRINSIC_IMAGE_ARRAY);
            assert((slot as u32 != 0) == (slot != 0)) by (bit_vector);
        }
        self.get_const_index(NIR_INTRINSIC_IMAGE_ARRAY, shader) != 0
    }

    /// The `FORMAT` index.
    pub fn format(&self, shader: &nir_shader) -> (r: pipe_format)
        requires
            self.has_index(shader, NIR_INTRINSIC_FORMAT),
        ensures
            r == self.slot(shader, NIR_INTRINSIC_FORMAT) as u32,
    {
        self.get_const_index(NIR_INTRINSIC_FORMAT, shader)
    }

    /// The `ACCESS` index.
    pub fn access(&self, shader: &nir_shader) -> (r: gl_access_qualifier)
        requires
            self.has_index(shader, NIR_INTRINSIC_ACCESS),
        ensures
            r == self.slot(shader, NIR_INTRINSIC_ACCESS) as u32,
    {
        self.get_const_index(NIR_INTRINSIC_ACCESS, shader)
    }

    /// The alignment that the instruction's `ALIGN_MUL` and `ALIGN_OFFSET`
    /// guarantee. The offset must be less than the multiplier.
    pub fn align(&self, shader: &nir_shader) -> (r: u32)
        requires
            self.has_index(shader, NIR_INTRINSIC_ALIGN_MUL),
            self.has_index(shader, NIR_INTRINSIC_ALIGN_OFFSET),
            (self.slot(shader, NIR_INTRINSIC_ALIGN_OFFSET) as u32) < (self.slot(
                shader,
                NIR_INTRINSIC_ALIGN_MUL,
            ) as u32),
        ensures
            r == effective_align(
                self.slot(shader, NIR_INTRINSIC_ALIGN_MUL) as u32,
                self.slot(shader, NIR_INTRINSIC_ALIGN_OFFSET) as u32,
            ),
            self.slot(shader, NIR_INTRINSIC_ALIGN_OFFSET) as u32 != 0
                ==> is_largest_power_of_two_dividing(
                r,
                self.slot(shader, NIR_INTRINSIC_ALIGN_OFFSET) as u32,
            ),
    {
        let mul: u32 = self.align_mul(shader);
        let offset: u32 = self.align_offset(shader);
        if offset > 0 {
            let shift: u32 = offset.trailing_zeros();
            proof {
                vstd::std_specs::bits::axiom_u32_trailing_zeros(offset);
                let rest: u32 = (32 - shift) as u32;
                assert(shift < 32 && rest == 32 - shift && (offset >> shift) & 1 == 1 && offset
                    << rest == 0 ==> (1u32 << shift) == offset & !((offset - 1) as u32))
                    by (bit_vector);
                lemma_lowest_set_bit(offset);
            }
            1 << shift
        } else {
            mul
        }
    }

    /// The `ALIGN_MUL` index: the multiplier of the alignment.
    pub fn align_mul(&self, shader: &nir_shader) -> (r: u32)
        requires
            self.has_index(shader, NIR_INTRINSIC_ALIGN_MUL),
        ensures
            r == self.slot(shader, NIR_INTRINSIC_ALIGN_MUL) as u32,
    {
        self.get_const_index(NIR_INTRINSIC_ALIGN_MUL, shader)
    }

    /// The `ALIGN_OFFSET` index: the offset of the alignment.
    pub fn align_offset(&self, shader: &nir_shader) -> (r: u32)
        requires
            self.has_index(shader, NIR_INTRINSIC_ALIGN_OFFSET),
        ensures
            r == self.slot(shader, NIR_INTRINSIC_ALIGN_OFFSET) as u32,
    {
        self.get_const_index(NIR_INTRINSIC_ALIGN_OFFSET, shader)
    }

    /// The `EXECUTION_SCOPE` index.
    pub fn execution_scope(&self, shader: &nir_shader) -> (r: mesa_scope)
        requires
            self.has_index(shader, NIR_INTRINSIC_EXECUTION_SCOPE),
        ensures
            r == self.slot(shader, NIR_INTRINSIC_EXECUTION_SCOPE) as u32,
    {
        self.get_const_index(NIR_INTRINSIC_EXECUTION_SCOPE, shader)
    }

    /// The `MEMORY_SCOPE` index.
    pub fn memory_scope(&self, shader: &nir_shader) -> (r: mesa_scope)
        requires
            self.has_index(shader, NIR_INTRINSIC_MEMORY_SCOPE),
        ensures
            r == self.slot(shader, NIR_INTRINSIC_MEMORY_SCOPE) as u32,
    {
        self.get_const_index(NIR_INTRINSIC_MEMORY_SCOPE, shader)
    }

    /// The `MEMORY_SEMANTICS` index.
    pub fn memory_semantics(&self, shader: &nir_shader) -> (r: nir_memory_semantics)
        requires
            self.has_index(shader, NIR_INTRINSIC_MEMORY_SEMANTICS),
        ensures
            r == self.slot(shader, NIR_INTRINSIC_MEMORY_SEMANTICS) as u32,
    {
        self.get_const_index(NIR_INTRINSIC_MEMORY_SEMANTICS, shader)
    }

    /// The `MEMORY_MODES` index.
    pub fn memory_modes(&self, shader: &nir_shader) -> (r: nir_variable_mode)
        requires
            self.has_index(shader, NIR_INTRINSIC_MEMORY_MODES),
        ensures
            r == self.slot(shader, NIR_INTRINSIC_MEMORY_MODES) as u32,
    {
        self.get_const_index(NIR_INTRINSIC_MEMORY_MODES, shader)
    }

    /// The `FLAGS` index.
    pub fn flags(&self, shader: &nir_shader) -> (r: u32)
        requires
            self.has_index(shader, NIR_INTRINSIC_FLAGS),
        ensures
            r == self.slot(shader, NIR_INTRINSIC_FLAGS) as u32,
    {
        self.get_const_index(NIR_INTRINSIC_FLAGS, shader)
    }

    /// The `ATOMIC_OP` index.
    pub fn atomic_op(&self, shader: &nir_shader) -> (r: nir_atomic_op)
        requires
            self.has_index(shader, NIR_INTRINSIC_ATOMIC_OP),
        ensures
            r == self.slot(shader, NIR_INTRINSIC_ATOMIC_OP) as u32,
    {
        self.get_const_index(NIR_INTRINSIC_ATOMIC_OP, shader)
    }

    /// The `SRC_TYPE` index, as an ALU type.
    pub fn src_type(&self, shader: &nir_shader) -> (r: ALUType)
        requires
            self.has_index(shader, NIR_INTRINSIC_SRC_TYPE),
        ensures
            r == ALUType(self.slot(shader, NIR_INTRINSIC_SRC_TYPE) as u32 as u8),
    {
        ALUType(
            #[verifier::truncate]
            (self.get_const_index(NIR_INTRINSIC_SRC_TYPE, shader) as u8),
        )
    }

    /// The `DEST_TYPE` index, as an ALU type.
    pub fn dest_type(&self, shader: &nir_shader) -> (r: ALUType)
        requires
            self.has_index(shader, NIR_INTRINSIC_DEST_TYPE),
        ensures
            r == ALUType(self.slot(shader, NIR_INTRINSIC_DEST_TYPE) as u32 as u8),
    {
        ALUType(
            #[verifier::truncate]
            (self.get_const_index(NIR_INTRINSIC_DEST_TYPE, shader) as u8),
        )
    }

    /// The `ROUNDING_MODE` index.
    pub fn rounding_mode(&self, shader: &nir_shader) -> (r: nir_rounding_mode)
        requires
            self.has_index(shader, NIR_INTRINSIC_ROUNDING_MODE),
        ensures
            r == self.slot(shader, NIR_INTRINSIC_ROUNDING_MODE) as u32,
    {
        self.get_const_index(NIR_INTRINSIC_ROUNDING_MODE, shader)
    }

    /// The `SATURATE` index: whether the result saturates.
    pub fn saturate(&self, shader: &nir_shader) -> (r: bool)
        requires
            self.has_index(shader, NIR_INTRINSIC_SATURATE),
        ensures
            r == (self.slot(shader, NIR_INTRINSIC_SATURATE) != 0),
    {
        proof {
            let slot: i32 = self.slot(shader, NIR_INTRINSIC_SATURATE);
            assert((slot as u32 != 0) == (slot != 0)) by (bit_vector);
        }
        self.get_const_index(NIR_INTRINSIC_SATURATE, shader) != 0
    }

    /// The `MATRIX_LAYOUT` index.
    pub fn matrix_layout(&self, shader: &nir_shader) -> (r: glsl_matrix_layout)
        requires
            self.has_index(shader, NIR_INTRINSIC_MATRIX_LAYOUT),
        ensures
            r == self.slot(shader, NIR_INTRINSIC_MATRIX_LAYOUT) as u32,
    {
        self.get_const_index(NIR_INTRINSIC_MATRIX_LAYOUT, shader)
    }

    /// The `NUM_MATRICES` index.
    pub fn num_matrices(&self, shader: &nir_shader) -> (r: u8)
        requires
            self.has_index(shader, NIR_INTRINSIC_NUM_MATRICES),
        ensures
            r == self.slot(shader, NIR_INTRINSIC_NUM_MATRICES) as u32 as u8,
    {
        #[verifier::truncate]
        (self.get_const_index(NIR_INTRINSIC_NUM_MATRICES, shader) as u8)
    }
}

impl nir_intrinsic_info {
    /// The name of the intrinsic.
    pub fn name(&self) -> (r: &str)
        ensures
            r@ == self.name@,
    {
        self.name.as_str()
    }
}

impl nir_load_const_instr {
    /// The constant cells, one per component.
    pub fn values(&self) -> (r: &[nir_const_value])
        requires
            self.inv(),
        ensures
            r@ == self.value@,
            r@.len() == self.def.num_components,
    {
        let n: usize = self.def.num_components as usize;
        let r = slice_subrange(self.value.as_slice(), 0, n);
        assert(r@ =~= self.value@);
        r
    }
}

impl nir_phi_src {
    /// The predecessor block that the value comes from.
    pub fn pred<'a>(&self, shader: &'a nir_shader) -> (r: &'a nir_block)
        requires
            shader.is_block(self.pred),
        ensures
            *r == shader.spec_block_at(self.pred),
    {
        shader.block_at(self.pred)
    }
}

impl nir_phi_instr {
    /// A cursor over the incoming values, in list order.
    pub fn iter_srcs<'a>(&self, shader: &'a nir_shader) -> (it: ExecListIter<'a, nir_phi_src>)
        requires
            self.inv(shader),
        ensures
            it.wf(),
            it@ == self.srcs.records(shader.nodes@, shader.phi_src_offset, shader.phi_src_table@),
    {
        ExecListIter::new(&shader.nodes, &shader.phi_src_table, &self.srcs, shader.phi_src_offset)
    }
}

impl nir_jump_instr {
    /// The block that the jump goes to, if it names one.
    pub fn target<'a>(&self, shader: &'a nir_shader) -> (r: Option<&'a nir_block>)
        requires
            self.inv(shader),
        ensures
            r == match self.target {
                Some(t) => Some(&shader.spec_block_at(t)),
                None => None,
            },
    {
        match self.target {
            Some(t) => Some(shader.block_at(t)),
            None => None,
        }
    }

    /// The block that the jump goes to when its condition fails, if it names
    /// one.
    pub fn else_target<'a>(&self, shader: &'a nir_shader) -> (r: Option<&'a nir_block>)
        requires
            self.inv(shader),
        ensures
            r == match self.else_target {
                Some(t) => Some(&shader.spec_block_at(t)),
                None => None,
            },
    {
        match self.else_target {
            Some(t) => Some(shader.block_at(t)),
            None => None,
        }
    }
}

impl nir_instr {
    pub open spec fn spec_type(&self) -> nir_instr_type {
        match self.data {
            nir_instr_data::Alu(_) => nir_instr_type::nir_instr_type_alu,
            nir_instr_data::Jump(_) => nir_instr_type::nir_instr_type_jump,
            nir_instr_data::Tex(_) => nir_instr_type::nir_instr_type_tex,
            nir_instr_data::Intrinsic(_) => nir_instr_type::nir_instr_type_intrinsic,
            nir_instr_data::LoadConst(_) => nir_instr_type::nir_instr_type_load_const,
            nir_instr_data::Undef(_) => nir_instr_type::nir_instr_type_undef,
            nir_instr_data::Phi(_) => nir_instr_type::nir_instr_type_phi,
        }
    }

    pub open spec fn spec_as_alu(&self) -> Option<&nir_alu_instr> {
        match &self.data {
            nir_instr_data::Alu(x) => Some(x),
            _ => None,
        }
    }

    pub open spec fn spec_as_jump(&self) -> Option<&nir_jump_instr> {
        match &self.data {
            nir_instr_data::Jump(x) => Some(x),
            _ => None,
        }
    }

    pub open spec fn spec_as_tex(&self) -> Option<&nir_tex_instr> {
        match &self.data {
            nir_instr_data::Tex(x) => Some(x),
            _ => None,
        }
    }

    pub open spec fn spec_as_intrinsic(&self) -> Option<&nir_intrinsic_instr> {
        match &self.data {
            nir_instr_data::Intrinsic(x) => Some(x),
            _ => None,
        }
    }

    pub open spec fn spec_as_load_const(&self) -> Option<&nir_load_const_instr> {
        match &self.data {
            nir_instr_data::LoadConst(x) => Some(x),
            _ => None,
        }
    }

    pub open spec fn spec_as_undef(&self) -> Option<&nir_undef_instr> {
        match &self.data {
            nir_instr_data::Undef(x) => Some(x),
            _ => None,
        }
    }

    pub open spec fn spec_as_phi(&self) -> Option<&nir_phi_instr> {
        match &self.data {
            nir_instr_data::Phi(x) => Some(x),
            _ => None,
        }
    }

    /// The instruction's tag.
    #[verifier::when_used_as_spec(spec_type)]
    pub fn type_(&self) -> (r: nir_instr_type)
        ensures
            r == self.spec_type(),
    {
        match &self.data {
            nir_instr_data::Alu(_) => nir_instr_type::nir_instr_type_alu,
            nir_instr_data::Jump(_) => nir_instr_type::nir_instr_type_jump,
            nir_instr_data::Tex(_) => nir_instr_type::nir_instr_type_tex,
            nir_instr_data::Intrinsic(_) => nir_instr_type::nir_instr_type_intrinsic,
            nir_instr_data::LoadConst(_) => nir_instr_type::nir_instr_type_load_const,
            nir_instr_data::Undef(_) => nir_instr_type::nir_instr_type_undef,
            nir_instr_data::Phi(_) => nir_instr_type::nir_instr_type_phi,
        }
    }

    /// The instruction as an ALU instruction, present exactly if its tag says it is one.
    #[verifier::when_used_as_spec(spec_as_alu)]
    pub fn as_alu(&self) -> (r: Option<&nir_alu_instr>)
        ensures
            r == self.spec_as_alu(),
            r is Some <==> self.spec_type() == nir_instr_type::nir_instr_type_alu,
    {
        match &self.data {
            nir_instr_data::Alu(x) => Some(x),
            _ => None,
        }
    }

    /// The instruction as a jump, present exactly if its tag says it is one.
    #[verifier::when_used_as_spec(spec_as_jump)]
    pub fn as_jump(&self) -> (r: Option<&nir_jump_instr>)
        ensures
            r == self.spec_as_jump(),
            r is Some <==> self.spec_type() == nir_instr_type::nir_instr_type_jump,
    {
        match &self.data {
            nir_instr_data::Jump(x) => Some(x),
            _ => None,
        }
    }

    /// The instruction as a texture instruction, present exactly if its tag says it is one.
    #[verifier::when_used_as_spec(spec_as_tex)]
    pub fn as_tex(&self) -> (r: Option<&nir_tex_instr>)
        ensures
            r == self.spec_as_tex(),
            r is Some <==> self.spec_type() == nir_instr_type::nir_instr_type_tex,
    {
        match &self.data {
            nir_instr_data::Tex(x) => Some(x),
            _ => None,
        }
    }

    /// The instruction as an intrinsic, present exactly if its tag says it is one.
    #[verifier::when_used_as_spec(spec_as_intrinsic)]
    pub fn as_intrinsic(&self) -> (r: Option<&nir_intrinsic_instr>)
        ensures
            r == self.spec_as_intrinsic(),
            r is Some <==> self.spec_type() == nir_instr_type::nir_instr_type_intrinsic,
    {
        match &self.data {
            nir_instr_data::Intrinsic(x) => Some(x),
            _ => None,
        }
    }

    /// The instruction as a constant, present exactly if its tag says it is one.
    #[verifier::when_used_as_spec(spec_as_load_const)]
    pub fn as_load_const(&self) -> (r: Option<&nir_load_const_instr>)
        ensures
            r == self.spec_as_load_const(),
            r is Some <==> self.spec_type() == nir_instr_type::nir_instr_type_load_const,
    {
        match &self.data {
            nir_instr_data::LoadConst(x) => Some(x),
            _ => None,
        }
    }

    /// The instruction as an undefined value, present exactly if its tag says it is one.
    #[verifier::when_used_as_spec(spec_as_undef)]
    pub fn as_undef(&self) -> (r: Option<&nir_undef_instr>)
        ensures
            r == self.spec_as_undef(),
            r is Some <==> self.spec_type() == nir_instr_type::nir_instr_type_undef,
    {
        match &self.data {
            nir_instr_data::Undef(x) => Some(x),
            _ => None,
        }
    }

    /// The instruction as a phi, present exactly if its tag says it is one.
    #[verifier::when_used_as_spec(spec_as_phi)]
    pub fn as_phi(&self) -> (r: Option<&nir_phi_instr>)
        ensures
            r == self.spec_as_phi(),
            r is Some <==> self.spec_type() == nir_instr_type::nir_instr_type_phi,
    {
        match &self.data {
            nir_instr_data::Phi(x) => Some(x),
            _ => None,
        }
    }

    /// The value that the instruction produces, if it produces one: a jump
    /// produces none, and an intrinsic only if its descriptor says so.
    pub fn def<'a>(&'a self, shader: &nir_shader) -> (r: Option<&'a nir_def>)
        requires
            self.data matches nir_instr_data::Intrinsic(n) ==> n.intrinsic
                < shader.intrinsic_infos@.len(),
        ensures
            r == match self.spec_def(shader) {
                Some(d) => Some(&d),
                None => None,
            },
    {
        match &self.data {
            nir_instr_data::Alu(a) => Some(&a.def),
            nir_instr_data::Jump(_) => None,
            nir_instr_data::Tex(t) => Some(&t.def),
            nir_instr_data::Intrinsic(n) => if n.info(shader).has_dest {
                Some(&n.def)
            } else {
                None
            },
            nir_instr_data::LoadConst(l) => Some(&l.def),
            nir_instr_data::Undef(u) => Some(&u.def),
            nir_instr_data::Phi(p) => Some(&p.def),
        }
    }
}

/// How many of the seven queries for a variant find the instruction to be
/// what they ask for.
pub open spec fn instr_variants_present(i: nir_instr) -> int {
(if i.as_alu() is Some {
        1int
    } else {
        0int
    }) + (if i.as_jump() is Some {
        1int
    } else {
        0int
    }) + (if i.as_tex() is Some {
        1int
    } else {
        0int
    }) + (if i.as_intrinsic() is Some {
        1int
    } else {
        0int
    }) + (if i.as_load_const() is Some {
        1int
    } else {
        0int
    }) + (if i.as_undef() is Some {
        1int
    } else {
        0int
    }) + (if i.as_phi() is Some {
        1int
    } else {
        0int
    })
}

/// An instruction is exactly one of the seven variants.
pub proof fn lemma_instr_is_one_variant(i: nir_instr)
    ensures
        instr_variants_present(i) == 1,
{
}

} // verus!
