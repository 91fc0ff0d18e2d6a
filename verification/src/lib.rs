//! Read-only traversal of a shader's intermediate representation.
//!
//! A shader is a graph that someone else builds: instructions in blocks,
//! blocks nested in conditionals and loops, all of it strung on intrusive
//! lists. This crate holds such a graph in tables ([`shader`]), walks its
//! lists in either direction ([`exec_list`]), tells the variants of
//! instructions ([`instr`]) and of control-flow nodes ([`cf`]) apart by their
//! tags, and reads constants ([`const_value`]) and ALU types ([`alu_type`]).
//! It changes nothing in the graph.
//!
//! Every function states what it needs of the graph; [`validate`] decides
//! whether a shader has all of it.

#![allow(non_camel_case_types)]
#![allow(non_upper_case_globals)]
#![allow(non_snake_case)]

pub mod alu_type;
pub mod cf;
pub mod const_value;
pub mod exec_list;
pub mod instr;
pub mod shader;
pub mod validate;
