use std::sync::Arc;

use num::BigUint;
use shard_trace::operations::field::params::{FieldType, BLS12381_MODULUS};
use shard_trace::runtime::program::Program;
use shard_trace::runtime::record::ExecutionRecord;
use shard_trace::syscall::precompiles::field::sub::{
    create_fp_sub_event, FieldSubChip, FieldSubEvent,
};

fn words_of(n: &BigUint) -> Vec<u32> {
    let mut words = n.to_u32_digits();
    words.resize(12, 0);
    words
}

fn modulus() -> BigUint {
    BigUint::from_bytes_le(&BLS12381_MODULUS)
}

fn written(field_sub_event: &FieldSubEvent) -> BigUint {
    let words: Vec<u32> = field_sub_event.p_memory_records.iter().map(|r| r.value).collect();
    BigUint::from_slice(&words)
}

#[test]
fn test_bls12381_fp_sub_simple() {
    let field = FieldType::Bls12381;
    let p = BigUint::from(100u32);
    let q = BigUint::from(42u32);
    let event = create_fp_sub_event(field, 1, 10, 0x1000, 0x2000, words_of(&p), words_of(&q));
    assert_eq!(written(&event), BigUint::from(58u32));

    // A difference below zero wraps around the modulus.
    let event = create_fp_sub_event(field, 1, 10, 0x1000, 0x2000, words_of(&q), words_of(&p));
    assert_eq!(written(&event), modulus() - BigUint::from(58u32));

    // The events of a shard become a trace of a power of two rows.
    let mut input = ExecutionRecord::new(1, Arc::new(Program::new(Vec::new(), 0, 0)));
    input.bls12381_fp_sub_events.push(event.clone());
    input.bls12381_fp_sub_events.push(event.clone());
    input.bls12381_fp_sub_events.push(event);
    let mut output = ExecutionRecord::new(1, Arc::new(Program::new(Vec::new(), 0, 0)));
    let chip = FieldSubChip::new(field);
    assert!(chip.included(&input));
    assert!(!chip.included(&output));
    let trace = chip.generate_trace(&input, &mut output);
    assert_eq!(chip.name(), "Bls12381FieldSub");
    assert_eq!(chip.width(), 197);
    assert_eq!(trace.width, 197);
    assert_eq!(trace.values.len(), 4 * 197);
    // Three real rows, then one padding row.
    assert_eq!(trace.values[0], 1);
    assert_eq!(trace.values[197], 1);
    assert_eq!(trace.values[2 * 197], 1);
    assert!(trace.values[3 * 197..].iter().all(|&c| c == 0));
    assert!(!output.byte_lookups.is_empty());
}

#[test]
fn fp_sub_of_a_number_from_itself_is_zero() {
    let field = FieldType::Bls12381;
    let p = BigUint::parse_bytes(b"123456789abcdef0123456789abcdef", 16).unwrap();
    let event = create_fp_sub_event(field, 3, 7, 0x400, 0x400, words_of(&p), words_of(&p));
    assert_eq!(written(&event), BigUint::from(0u32));
    // The read happens at the clock of the event, the write one tick later.
    assert!(event.q_memory_records.iter().all(|r| r.clk == 7 && r.shard == 3));
    assert!(event.p_memory_records.iter().all(|r| r.clk == 8 && r.shard == 3));
    assert_eq!(event.q_memory_records[2].addr, 0x408);
    assert_eq!(event.p_memory_records[2].addr, 0x408);
    assert_eq!(event.p_memory_records[0].prev_value, words_of(&p)[0]);
    assert_eq!(event.clk, 7);
}

#[test]
fn fp_sub_then_add_gives_the_minuend() {
    let field = FieldType::Bls12381;
    let m = modulus();
    let p = BigUint::parse_bytes(b"1a0111ea397fe69a4b1ba7b6434bacd764774b84f38512bf", 16).unwrap();
    let q = &m - BigUint::from(5u32);
    let event = create_fp_sub_event(field, 1, 1, 0, 64, words_of(&p), words_of(&q));
    let r = written(&event);
    assert!(r < m);
    assert_eq!((r + &q) % &m, &p % &m);
    // Operands that are not reduced are taken modulo the modulus.
    let big = &m + BigUint::from(9u32);
    let one = BigUint::from(1u32);
    let event = create_fp_sub_event(field, 1, 1, 0, 64, words_of(&one), words_of(&big));
    assert_eq!(written(&event), &m - BigUint::from(8u32));
}

#[test]
fn fp_sub_trace_of_no_events_is_one_padding_row() {
    let field = FieldType::Bls12381;
    let input = ExecutionRecord::new(0, Arc::new(Program::new(Vec::new(), 0, 0)));
    let mut output = ExecutionRecord::new(0, Arc::new(Program::new(Vec::new(), 0, 0)));
    let chip = FieldSubChip::new(field);
    let trace = chip.generate_trace(&input, &mut output);
    assert_eq!(trace.values.len(), 197);
    assert!(trace.values.iter().all(|&c| c == 0));
    assert!(output.byte_lookups.is_empty());
    assert_eq!(chip.padding_row(), trace.values);
}
