//! The instruction set, as far as the trace distinguishes it.

use vstd::prelude::*;

verus! {

/// An opcode of the guest machine. The declaration order is the order in which
/// opcodes sort.
#[derive(Clone, Copy, Debug, PartialEq, Eq, Structural, Hash)]
#[allow(non_camel_case_types)]
#[allow(clippy::upper_case_acronyms)]
pub enum Opcode {
    ADD,
    SUB,
    XOR,
    OR,
    AND,
    SLL,
    SRL,
    SRA,
    SLT,
    SLTU,
    LB,
    LH,
    LW,
    LBU,
    LHU,
    SB,
    SH,
    SW,
    BEQ,
    BNE,
    BLT,
    BGE,
    BLTU,
    BGEU,
    JAL,
    JALR,
    AUIPC,
    ECALL,
    EBREAK,
    MUL,
    MULH,
    MULHU,
    MULHSU,
    DIV,
    DIVU,
    REM,
    REMU,
    UNIMP,
}

/// The family of arithmetic events an opcode's events are recorded under.
#[derive(Clone, Copy, Debug, PartialEq, Eq, Structural)]
pub enum AluFamily {
    Add,
    Mul,
    Sub,
    Bitwise,
    ShiftLeft,
    ShiftRight,
    Lt,
}

/// Number of opcodes; every code is below it.
pub const NUM_OPCODES: u8 = 38;

impl Opcode {
    /// The position of the opcode in the declaration order.
    pub open spec fn spec_code(self) -> u8 {
        match self {
            Opcode::ADD => 0,
            Opcode::SUB => 1,
            Opcode::XOR => 2,
            Opcode::OR => 3,
            Opcode::AND => 4,
            Opcode::SLL => 5,
            Opcode::SRL => 6,
            Opcode::SRA => 7,
            Opcode::SLT => 8,
            Opcode::SLTU => 9,
            Opcode::LB => 10,
            Opcode::LH => 11,
            Opcode::LW => 12,
            Opcode::LBU => 13,
            Opcode::LHU => 14,
            Opcode::SB => 15,
            Opcode::SH => 16,
            Opcode::SW => 17,
            Opcode::BEQ => 18,
            Opcode::BNE => 19,
            Opcode::BLT => 20,
            Opcode::BGE => 21,
            Opcode::BLTU => 22,
            Opcode::BGEU => 23,
            Opcode::JAL => 24,
            Opcode::JALR => 25,
            Opcode::AUIPC => 26,
            Opcode::ECALL => 27,
            Opcode::EBREAK => 28,
            Opcode::MUL => 29,
            Opcode::MULH => 30,
            Opcode::MULHU => 31,
            Opcode::MULHSU => 32,
            Opcode::DIV => 33,
            Opcode::DIVU => 34,
            Opcode::REM => 35,
            Opcode::REMU => 36,
            Opcode::UNIMP => 37,
        }
    }

    /// The opcode with the given code, if there is one.
    pub open spec fn spec_from_code(code: u8) -> Option<Opcode> {
        if code == 0 {
            Some(Opcode::ADD)
        } else if code == 1 {
            Some(Opcode::SUB)
        } else if code == 2 {
            Some(Opcode::XOR)
        } else if code == 3 {
            Some(Opcode::OR)
        } else if code == 4 {
            Some(Opcode::AND)
        } else if code == 5 {
            Some(Opcode::SLL)
        } else if code == 6 {
            Some(Opcode::SRL)
        } else if code == 7 {
            Some(Opcode::SRA)
        } else if code == 8 {
            Some(Opcode::SLT)
        } else if code == 9 {
            Some(Opcode::SLTU)
        } else if code == 10 {
            Some(Opcode::LB)
        } else if code == 11 {
            Some(Opcode::LH)
        } else if code == 12 {
            Some(Opcode::LW)
        } else if code == 13 {
            Some(Opcode::LBU)
        } else if code == 14 {
            Some(Opcode::LHU)
        } else if code == 15 {
            Some(Opcode::SB)
        } else if code == 16 {
            Some(Opcode::SH)
        } else if code == 17 {
            Some(Opcode::SW)
        } else if code == 18 {
            Some(Opcode::BEQ)
        } else if code == 19 {
            Some(Opcode::BNE)
        } else if code == 20 {
            Some(Opcode::BLT)
        } else if code == 21 {
            Some(Opcode::BGE)
        } else if code == 22 {
            Some(Opcode::BLTU)
        } else if code == 23 {
            Some(Opcode::BGEU)
        } else if code == 24 {
            Some(Opcode::JAL)
        } else if code == 25 {
            Some(Opcode::JALR)
        } else if code == 26 {
            Some(Opcode::AUIPC)
        } else if code == 27 {
            Some(Opcode::ECALL)
        } else if code == 28 {
            Some(Opcode::EBREAK)
        } else if code == 29 {
            Some(Opcode::MUL)
        } else if code == 30 {
            Some(Opcode::MULH)
        } else if code == 31 {
            Some(Opcode::MULHU)
        } else if code == 32 {
            Some(Opcode::MULHSU)
        } else if code == 33 {
            Some(Opcode::DIV)
        } else if code == 34 {
            Some(Opcode::DIVU)
        } else if code == 35 {
            Some(Opcode::REM)
        } else if code == 36 {
            Some(Opcode::REMU)
        } else if code == 37 {
            Some(Opcode::UNIMP)
        } else {
            None
        }
    }

    /// The family under which events of this opcode may be handed over in
    /// bulk, if any. Division and remainder have a stream of their own but are
    /// not accepted in bulk.
    pub open spec fn spec_alu_family(self) -> Option<AluFamily> {
        match self {
            Opcode::ADD => Some(AluFamily::Add),
            Opcode::MUL | Opcode::MULH | Opcode::MULHU | Opcode::MULHSU => Some(AluFamily::Mul),
            Opcode::SUB => Some(AluFamily::Sub),
            Opcode::XOR | Opcode::OR | Opcode::AND => Some(AluFamily::Bitwise),
            Opcode::SLL => Some(AluFamily::ShiftLeft),
            Opcode::SRL | Opcode::SRA => Some(AluFamily::ShiftRight),
            Opcode::SLT | Opcode::SLTU => Some(AluFamily::Lt),
            _ => None,
        }
    }

    /// The code of the opcode: its position in the declaration order.
    pub fn code(self) -> (c: u8)
        ensures
            c == self.spec_code(),
            c < NUM_OPCODES,
            Opcode::spec_from_code(c) == Some(self),
    {
        match self {
            Opcode::ADD => 0,
            Opcode::SUB => 1,
            Opcode::XOR => 2,
            Opcode::OR => 3,
            Opcode::AND => 4,
            Opcode::SLL => 5,
            Opcode::SRL => 6,
            Opcode::SRA => 7,
            Opcode::SLT => 8,
            Opcode::SLTU => 9,
            Opcode::LB => 10,
            Opcode::LH => 11,
            Opcode::LW => 12,
            Opcode::LBU => 13,
            Opcode::LHU => 14,
            Opcode::SB => 15,
            Opcode::SH => 16,
            Opcode::SW => 17,
            Opcode::BEQ => 18,
            Opcode::BNE => 19,
            Opcode::BLT => 20,
            Opcode::BGE => 21,
            Opcode::BLTU => 22,
            Opcode::BGEU => 23,
            Opcode::JAL => 24,
            Opcode::JALR => 25,
            Opcode::AUIPC => 26,
            Opcode::ECALL => 27,
            Opcode::EBREAK => 28,
            Opcode::MUL => 29,
            Opcode::MULH => 30,
            Opcode::MULHU => 31,
            Opcode::MULHSU => 32,
            Opcode::DIV => 33,
            Opcode::DIVU => 34,
            Opcode::REM => 35,
            Opcode::REMU => 36,
            Opcode::UNIMP => 37,
        }
    }

    /// The opcode with the given code; `None` where no opcode has it.
    pub fn from_code(code: u8) -> (r: Option<Opcode>)
        ensures
            r == Opcode::spec_from_code(code),
            r is Some <==> code < NUM_OPCODES,
            r matches Some(op) ==> op.spec_code() == code,
    {
        if code == 0 {
            Some(Opcode::ADD)
        } else if code == 1 {
            Some(Opcode::SUB)
        } else if code == 2 {
            Some(Opcode::XOR)
        } else if code == 3 {
            Some(Opcode::OR)
        } else if code == 4 {
            Some(Opcode::AND)
        } else if code == 5 {
            Some(Opcode::SLL)
        } else if code == 6 {
            Some(Opcode::SRL)
        } else if code == 7 {
            Some(Opcode::SRA)
        } else if code == 8 {
            Some(Opcode::SLT)
        } else if code == 9 {
            Some(Opcode::SLTU)
        } else if code == 10 {
            Some(Opcode::LB)
        } else if code == 11 {
            Some(Opcode::LH)
        } else if code == 12 {
            Some(Opcode::LW)
        } else if code == 13 {
            Some(Opcode::LBU)
        } else if code == 14 {
            Some(Opcode::LHU)
        } else if code == 15 {
            Some(Opcode::SB)
        } else if code == 16 {
            Some(Opcode::SH)
        } else if code == 17 {
            Some(Opcode::SW)
        } else if code == 18 {
            Some(Opcode::BEQ)
        } else if code == 19 {
            Some(Opcode::BNE)
        } else if code == 20 {
            Some(Opcode::BLT)
        } else if code == 21 {
            Some(Opcode::BGE)
        } else if code == 22 {
            Some(Opcode::BLTU)
        } else if code == 23 {
            Some(Opcode::BGEU)
        } else if code == 24 {
            Some(Opcode::JAL)
        } else if code == 25 {
            Some(Opcode::JALR)
        } else if code == 26 {
            Some(Opcode::AUIPC)
        } else if code == 27 {
            Some(Opcode::ECALL)
        } else if code == 28 {
            Some(Opcode::EBREAK)
        } else if code == 29 {
            Some(Opcode::MUL)
        } else if code == 30 {
            Some(Opcode::MULH)
        } else if code == 31 {
            Some(Opcode::MULHU)
        } else if code == 32 {
            Some(Opcode::MULHSU)
        } else if code == 33 {
            Some(Opcode::DIV)
        } else if code == 34 {
            Some(Opcode::DIVU)
        } else if code == 35 {
            Some(Opcode::REM)
        } else if code == 36 {
            Some(Opcode::REMU)
        } else if code == 37 {
            Some(Opcode::UNIMP)
        } else {
            None
        }
    }

    /// The family under which events of this opcode may be handed over in
    /// bulk; `None` for every other opcode.
    pub fn alu_family(self) -> (r: Option<AluFamily>)
        ensures
            r == self.spec_alu_family(),
    {
        match self {
            Opcode::ADD => Some(AluFamily::Add),
            Opcode::MUL | Opcode::MULH | Opcode::MULHU | Opcode::MULHSU => Some(AluFamily::Mul),
            Opcode::SUB => Some(AluFamily::Sub),
            Opcode::XOR | Opcode::OR | Opcode::AND => Some(AluFamily::Bitwise),
            Opcode::SLL => Some(AluFamily::ShiftLeft),
            Opcode::SRL | Opcode::SRA => Some(AluFamily::ShiftRight),
            Opcode::SLT | Opcode::SLTU => Some(AluFamily::Lt),
            _ => None,
        }
    }
}

} // verus!
