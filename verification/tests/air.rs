use shard_trace::air::constraints::{Constraint, Gate, Operand, SqrtKind, SyscallCode};
use shard_trace::operations::field::field_op::{field_op, FieldOperation};
use shard_trace::operations::field::params::{CurveType, FieldType, BLS12381_MODULUS};
use shard_trace::syscall::precompiles::edwards::ed_decompress::EdDecompressChip;
use shard_trace::syscall::precompiles::field::sub::FieldSubChip;
use shard_trace::syscall::precompiles::weierstrass::weierstrass_decompress::{
    WeierstrassDecompressChip,
};
use shard_trace::utils::trace::next_power_of_two;

use num::BigUint;

fn syscalls(list: &[Constraint]) -> Vec<(u32, usize, usize)> {
    list.iter()
        .filter_map(|c| match c {
            Constraint::ReceiveSyscall { syscall_id, arg1, arg2 } => {
                Some((*syscall_id, *arg1, *arg2))
            }
            _ => None,
        })
        .collect()
}

fn memory(list: &[Constraint]) -> (usize, usize) {
    let reads = list.iter().filter(|c| matches!(c, Constraint::MemoryRead { .. })).count();
    let writes = list.iter().filter(|c| matches!(c, Constraint::MemoryWrite { .. })).count();
    (reads, writes)
}

#[test]
fn the_field_sub_chip_reads_q_and_writes_p_one_tick_later() {
    let chip = FieldSubChip::new(FieldType::Bls12381);
    let list = chip.eval();
    assert_eq!(syscalls(&list), vec![(SyscallCode::BLS12381_FP_SUB.syscall_id(), 3, 4)]);
    assert_eq!(memory(&list), (12, 12));
    for c in &list {
        match c {
            Constraint::MemoryRead { ptr, clk_offset, .. } => {
                assert_eq!((*ptr, *clk_offset), (4, 0));
            }
            Constraint::MemoryWrite { ptr, clk_offset, .. } => {
                assert_eq!((*ptr, *clk_offset), (3, 1));
            }
            _ => {}
        }
    }
    assert_eq!(
        list[1],
        Constraint::FieldOp {
            op: FieldOperation::Sub,
            a: Operand::WritePrev { start: 5 },
            b: Operand::ReadValue { start: 101 },
            result: 149,
        }
    );
    assert_eq!(
        list[2],
        Constraint::LimbsEqual {
            a: Operand::Cols { start: 149 },
            b: Operand::WriteValue { start: 5 },
            gate: Gate::Real,
        }
    );
    assert_eq!(list[15], Constraint::MemoryWrite { cols: 5, ptr: 3, offset: 0, clk_offset: 1 });
}

#[test]
fn the_edwards_chip_selects_the_root_by_the_sign() {
    let chip = EdDecompressChip::new();
    let list = chip.eval();
    assert_eq!(list.len(), 29);
    assert_eq!(syscalls(&list), vec![(SyscallCode::ED_DECOMPRESS.syscall_id(), 3, 4)]);
    assert_eq!(memory(&list), (8, 8));
    assert_eq!(list[1], Constraint::Bool { col: 4, gate: Gate::Always });
    assert_eq!(
        list[8],
        Constraint::FieldSqrt {
            kind: SqrtKind::Ed25519,
            a: Operand::Cols { start: 262 },
            result: 294,
        }
    );
    assert_eq!(list[18], Constraint::MemoryRead { cols: 69, ptr: 3, offset: 32, clk_offset: 0 });
    assert_eq!(
        list[26],
        Constraint::LimbsEqual {
            a: Operand::Cols { start: 326 },
            b: Operand::WriteValue { start: 5 },
            gate: Gate::RealAndSet { col: 4 },
        }
    );
    assert_eq!(
        list[27],
        Constraint::LimbsEqual {
            a: Operand::Cols { start: 294 },
            b: Operand::WriteValue { start: 5 },
            gate: Gate::RealAndUnset { col: 4 },
        }
    );
}

#[test]
fn the_weierstrass_chip_names_the_call_of_its_curve() {
    let secp = WeierstrassDecompressChip::new(CurveType::Secp256k1).eval();
    let bls = WeierstrassDecompressChip::new(CurveType::Bls12381).eval();
    assert_eq!(syscalls(&secp), vec![(SyscallCode::SECP256K1_DECOMPRESS.syscall_id(), 3, 4)]);
    assert_eq!(syscalls(&bls), vec![(SyscallCode::BLS12381_DECOMPRESS.syscall_id(), 3, 4)]);
    assert_eq!(memory(&secp), (8, 8));
    assert_eq!(memory(&bls), (12, 12));
    assert_eq!(secp.len(), 27);
    assert_eq!(bls.len(), 35);
    // x is read in the upper half of the slot, y written in the lower half.
    assert_eq!(secp[10], Constraint::MemoryRead { cols: 5, ptr: 3, offset: 32, clk_offset: 0 });
    assert_eq!(bls[10], Constraint::MemoryRead { cols: 5, ptr: 3, offset: 48, clk_offset: 0 });
    assert_eq!(secp[18], Constraint::MemoryWrite { cols: 37, ptr: 3, offset: 0, clk_offset: 0 });
    assert_eq!(
        secp[4],
        Constraint::FieldOp {
            op: FieldOperation::Add,
            a: Operand::Cols { start: 133 },
            b: Operand::Small { value: 7 },
            result: 165,
        }
    );
    assert_eq!(
        secp[8],
        Constraint::LimbsEqual {
            a: Operand::Cols { start: 197 },
            b: Operand::WriteValue { start: 37 },
            gate: Gate::RealAndDiffersFromNot { a: 261, b: 4 },
        }
    );
}

#[test]
fn the_four_field_operations() {
    let field = FieldType::Bls12381;
    let m = BigUint::from_bytes_le(&BLS12381_MODULUS);
    let a = BigUint::from(30u32);
    let b = BigUint::from(12u32);
    assert_eq!(field_op(field, &a, &b, FieldOperation::Add), BigUint::from(42u32));
    assert_eq!(field_op(field, &a, &b, FieldOperation::Sub), BigUint::from(18u32));
    assert_eq!(field_op(field, &b, &a, FieldOperation::Sub), &m - BigUint::from(18u32));
    assert_eq!(field_op(field, &a, &b, FieldOperation::Mul), BigUint::from(360u32));
    let q = field_op(field, &a, &b, FieldOperation::Div);
    assert_eq!((&q * &b) % &m, a);
    let big = &m - BigUint::from(1u32);
    assert_eq!(field_op(field, &big, &big, FieldOperation::Mul), BigUint::from(1u32));
    let two = BigUint::from(2u32);
    assert_eq!(field_op(field, &big, &two, FieldOperation::Add), BigUint::from(1u32));
    // Nothing divided by nothing is nothing.
    let zero = BigUint::from(0u32);
    assert_eq!(field_op(field, &zero, &zero, FieldOperation::Div), zero);
}

#[test]
fn the_next_power_of_two() {
    assert_eq!(next_power_of_two(0), Some(1));
    assert_eq!(next_power_of_two(1), Some(1));
    assert_eq!(next_power_of_two(2), Some(2));
    assert_eq!(next_power_of_two(3), Some(4));
    assert_eq!(next_power_of_two(4), Some(4));
    assert_eq!(next_power_of_two(5), Some(8));
    assert_eq!(next_power_of_two(1000), Some(1024));
    assert_eq!(next_power_of_two(usize::MAX / 2 + 1), Some(usize::MAX / 2 + 1));
    assert_eq!(next_power_of_two(usize::MAX / 2 + 2), None);
    assert_eq!(next_power_of_two(usize::MAX), None);
}
