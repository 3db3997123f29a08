//! The guest program a record belongs to.

use vstd::prelude::*;

use crate::runtime::opcode::Opcode;

verus! {

/// One decoded instruction of the guest program.
#[derive(Clone, Copy, Debug, PartialEq, Eq, Structural)]
pub struct Instruction {
    pub opcode: Opcode,
    pub op_a: u32,
    pub op_b: u32,
    pub op_c: u32,
    pub imm_b: bool,
    pub imm_c: bool,
}

impl Instruction {
    pub fn new(opcode: Opcode, op_a: u32, op_b: u32, op_c: u32, imm_b: bool, imm_c: bool) -> (r:
        Self)
        ensures
            r == (Instruction { opcode, op_a, op_b, op_c, imm_b, imm_c }),
    {
        Instruction { opcode, op_a, op_b, op_c, imm_b, imm_c }
    }
}

/// A guest program: its instructions, and where execution starts.
#[derive(Clone, Debug)]
pub struct Program {
    pub instructions: Vec<Instruction>,
    pub pc_start: u32,
    pub pc_base: u32,
}

impl Program {
    pub fn new(instructions: Vec<Instruction>, pc_start: u32, pc_base: u32) -> (r: Self)
        ensures
            r.instructions == instructions,
            r.pc_start == pc_start,
            r.pc_base == pc_base,
    {
        Program { instructions, pc_start, pc_base }
    }
}

impl Default for Program {
    fn default() -> (r: Self)
        ensures
            r.instructions@.len() == 0,
            r.pc_start == 0,
            r.pc_base == 0,
    {
        Program { instructions: Vec::new(), pc_start: 0, pc_base: 0 }
    }
}

} // verus!
