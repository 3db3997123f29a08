use std::collections::HashMap;
use std::sync::Arc;

use shard_trace::air::public_values::PublicValues;
use shard_trace::bytes::ByteLookupEvent;
use shard_trace::runtime::events::{
    AluEvent, CpuEvent, ECAddEvent, MemoryInitializeFinalizeEvent, ShaExtendEvent,
};
use shard_trace::runtime::opcode::{AluFamily, Opcode};
use shard_trace::runtime::program::{Instruction, Program};
use shard_trace::runtime::record::{ExecutionRecord, MemoryAccessRecord, ShardingConfig};

fn cpu(shard: u32, clk: u32, pc: u32, exit_code: u32) -> CpuEvent {
    CpuEvent {
        shard,
        clk,
        pc,
        next_pc: pc + 4,
        instruction: Instruction::new(Opcode::ADD, 1, 2, 3, false, false),
        a: 0,
        a_record: None,
        b: 0,
        b_record: None,
        c: 0,
        c_record: None,
        memory: None,
        memory_record: None,
        exit_code,
    }
}

fn alu(opcode: Opcode, a: u32) -> AluEvent {
    AluEvent::new(1, 0, opcode, a, 0, 0)
}

fn record() -> ExecutionRecord {
    ExecutionRecord::new(0, Arc::new(Program::new(Vec::new(), 0, 0)))
}

fn lookup(shard: u32, b1: u8) -> ByteLookupEvent {
    ByteLookupEvent::new(shard, 4, b1, 0, 0, 0)
}

fn count(record: &ExecutionRecord, event: ByteLookupEvent) -> usize {
    record
        .byte_lookups
        .get(&event.shard)
        .and_then(|m| m.get(&event.key()))
        .copied()
        .unwrap_or(0)
}

fn ec_add(shard: u32) -> ECAddEvent {
    ECAddEvent {
        shard,
        clk: 0,
        p_ptr: 0,
        p: vec![0; 16],
        q_ptr: 64,
        q: vec![0; 16],
        p_memory_records: Vec::new(),
        q_memory_records: Vec::new(),
    }
}

#[test]
fn a_new_record_is_empty() {
    let r = ExecutionRecord::new(7, Arc::new(Program::new(Vec::new(), 16, 8)));
    assert_eq!(r.index(), 7);
    assert_eq!(r.program.pc_start, 16);
    assert!(r.cpu_events.is_empty());
    assert!(r.byte_lookups.is_empty());
    assert!(r.stats().iter().all(|(_, len)| *len == 0));
    let d = ExecutionRecord::default();
    assert_eq!(d.index, 0);
    assert!(d.memory_finalize_events.is_empty());
    let mut r = r;
    r.set_index(9);
    assert_eq!(r.index(), 9);
    let access = MemoryAccessRecord::default();
    assert!(access.a.is_none() && access.memory.is_none());
}

#[test]
fn byte_lookups_count_from_zero() {
    let mut r = record();
    r.add_byte_lookup_event(lookup(3, 1));
    assert_eq!(count(&r, lookup(3, 1)), 1);
    r.add_byte_lookup_event(lookup(3, 1));
    r.add_byte_lookup_event(lookup(3, 2));
    r.add_byte_lookup_event(lookup(5, 1));
    assert_eq!(count(&r, lookup(3, 1)), 2);
    assert_eq!(count(&r, lookup(3, 2)), 1);
    assert_eq!(count(&r, lookup(5, 1)), 1);
    assert_eq!(count(&r, lookup(5, 2)), 0);
    r.add_byte_lookup_events(vec![lookup(5, 2), lookup(5, 2), lookup(3, 1)]);
    assert_eq!(count(&r, lookup(5, 2)), 2);
    assert_eq!(count(&r, lookup(3, 1)), 3);
    assert_eq!(r.byte_lookups.len(), 2);
    assert_eq!(ByteLookupEvent::from_key(lookup(5, 2).key()), lookup(5, 2));
}

#[test]
fn append_moves_the_streams_and_adds_the_lookups() {
    let mut a = record();
    let mut b = ExecutionRecord::new(4, Arc::new(Program::new(Vec::new(), 0, 0)));
    a.cpu_events.push(cpu(1, 0, 0, 0));
    a.add_mul_event(alu(Opcode::MUL, 1));
    a.add_byte_lookup_event(lookup(1, 1));
    a.add_byte_lookup_event(lookup(1, 2));
    b.cpu_events.push(cpu(1, 1, 4, 0));
    b.cpu_events.push(cpu(2, 2, 8, 0));
    b.add_mul_event(alu(Opcode::MULH, 2));
    b.add_lt_event(alu(Opcode::SLT, 3));
    b.add_byte_lookup_event(lookup(1, 1));
    b.add_byte_lookup_event(lookup(1, 1));
    b.add_byte_lookup_event(lookup(2, 9));
    b.memory_initialize_events.push(MemoryInitializeFinalizeEvent {
        addr: 8,
        value: 1,
        shard: 0,
        timestamp: 0,
        used: 1,
    });

    a.append(&mut b);

    assert_eq!(a.cpu_events.len(), 3);
    assert_eq!(a.cpu_events[1].clk, 1);
    assert_eq!(a.cpu_events[2].shard, 2);
    assert_eq!(a.mul_events, vec![alu(Opcode::MUL, 1), alu(Opcode::MULH, 2)]);
    assert_eq!(a.lt_events, vec![alu(Opcode::SLT, 3)]);
    assert_eq!(a.memory_initialize_events.len(), 1);
    // A lookup in both: the multiplicities add up. A lookup in one: adopted.
    assert_eq!(count(&a, lookup(1, 1)), 3);
    assert_eq!(count(&a, lookup(1, 2)), 1);
    assert_eq!(count(&a, lookup(2, 9)), 1);
    assert_eq!(a.index, 0);
    // The other record keeps nothing but its index.
    assert!(b.cpu_events.is_empty());
    assert!(b.mul_events.is_empty());
    assert!(b.byte_lookups.is_empty());
    assert!(b.memory_initialize_events.is_empty());
    assert_eq!(b.index, 4);
}

#[test]
fn append_does_not_depend_on_the_order_of_merging() {
    let make = |events: &[ByteLookupEvent]| {
        let mut r = record();
        r.add_byte_lookup_events(events.to_vec());
        r
    };
    let xs = [lookup(1, 1), lookup(1, 2), lookup(2, 1)];
    let ys = [lookup(1, 2), lookup(3, 3)];
    let zs = [lookup(2, 1), lookup(2, 1), lookup(3, 3), lookup(4, 4)];

    // (x + y) + z
    let mut left = make(&xs);
    left.append(&mut make(&ys));
    left.append(&mut make(&zs));
    // x + (y + z)
    let mut yz = make(&ys);
    yz.append(&mut make(&zs));
    let mut right = make(&xs);
    right.append(&mut yz);
    assert_eq!(left.byte_lookups, right.byte_lookups);
    // y + x against x + y
    let mut xy = make(&xs);
    xy.append(&mut make(&ys));
    let mut yx = make(&ys);
    yx.append(&mut make(&xs));
    assert_eq!(xy.byte_lookups, yx.byte_lookups);
    assert_eq!(count(&left, lookup(2, 1)), 3);
    assert_eq!(count(&left, lookup(3, 3)), 2);
}

#[test]
fn stats_name_every_stream() {
    let mut r = record();
    r.cpu_events.push(cpu(1, 0, 0, 0));
    r.cpu_events.push(cpu(1, 1, 4, 0));
    r.add_events.push(alu(Opcode::ADD, 1));
    r.secp256k1_add_events.push(ec_add(1));
    let stats = r.stats();
    let names: Vec<&str> = stats.iter().map(|(name, _)| name.as_str()).collect();
    assert_eq!(
        names,
        vec![
            "cpu_events",
            "add_events",
            "mul_events",
            "sub_events",
            "bitwise_events",
            "shift_left_events",
            "shift_right_events",
            "divrem_events",
            "lt_events",
            "sha_extend_events",
            "sha_compress_events",
            "keccak_permute_events",
            "ed_add_events",
            "ed_decompress_events",
            "secp256k1_add_events",
            "secp256k1_double_events",
            "bn254_add_events",
            "bn254_double_events",
            "bls12381_g1_add_events",
            "bls12381_g1_double_events",
            "k256_decompress_events",
            "blake3_compress_inner_events",
            "bls12381_g1_decompress_events",
            "bls12381_fp_add_events",
            "bls12381_fp_sub_events",
            "bls12381_fp_mul_events",
            "bls12381_fp2_add_events",
            "bls12381_fp2_sub_events",
            "bls12381_fp2_mul_events",
            "bls12381_g2_add_events",
            "bls12381_g2_double_events",
        ]
    );
    let by_name: HashMap<String, usize> = stats.into_iter().collect();
    assert_eq!(by_name.len(), 31);
    assert_eq!(by_name["cpu_events"], 2);
    assert_eq!(by_name["add_events"], 1);
    assert_eq!(by_name["secp256k1_add_events"], 1);
    assert_eq!(by_name["mul_events"], 0);
}

#[test]
fn alu_events_are_added_in_the_order_of_the_opcodes() {
    let mut events: HashMap<u8, Vec<AluEvent>> = HashMap::new();
    // Inserted in an order that is not the order of the opcodes.
    events.insert(Opcode::MULHSU.code(), vec![alu(Opcode::MULHSU, 4)]);
    events.insert(Opcode::AND.code(), vec![alu(Opcode::AND, 7)]);
    events.insert(Opcode::MUL.code(), vec![alu(Opcode::MUL, 1), alu(Opcode::MUL, 2)]);
    events.insert(Opcode::XOR.code(), vec![alu(Opcode::XOR, 5)]);
    events.insert(Opcode::SRA.code(), vec![alu(Opcode::SRA, 9)]);
    events.insert(Opcode::MULH.code(), vec![alu(Opcode::MULH, 3)]);
    events.insert(Opcode::OR.code(), vec![alu(Opcode::OR, 6)]);
    events.insert(Opcode::ADD.code(), vec![alu(Opcode::ADD, 0)]);
    events.insert(Opcode::SLTU.code(), vec![alu(Opcode::SLTU, 11)]);
    events.insert(Opcode::SLL.code(), vec![alu(Opcode::SLL, 8)]);
    events.insert(Opcode::SUB.code(), vec![alu(Opcode::SUB, 12)]);
    events.insert(Opcode::SLT.code(), vec![alu(Opcode::SLT, 10)]);

    let mut r = record();
    r.add_mul_event(alu(Opcode::MULHU, 100));
    r.add_alu_events(&events);

    let firsts = |events: &Vec<AluEvent>| events.iter().map(|e| e.a).collect::<Vec<u32>>();
    assert_eq!(firsts(&r.add_events), vec![0]);
    assert_eq!(firsts(&r.mul_events), vec![100, 1, 2, 3, 4]);
    assert_eq!(firsts(&r.sub_events), vec![12]);
    assert_eq!(firsts(&r.bitwise_events), vec![5, 6, 7]);
    assert_eq!(firsts(&r.shift_left_events), vec![8]);
    assert_eq!(firsts(&r.shift_right_events), vec![9]);
    assert_eq!(firsts(&r.lt_events), vec![10, 11]);
    assert!(r.divrem_events.is_empty());
}

#[test]
fn opcodes_have_codes_and_families() {
    for code in 0..=255u8 {
        match Opcode::from_code(code) {
            Some(op) => {
                assert!(code < 38);
                assert_eq!(op.code(), code);
            }
            None => assert!(code >= 38),
        }
    }
    assert_eq!(Opcode::ADD.code(), 0);
    assert_eq!(Opcode::UNIMP.code(), 37);
    assert_eq!(Opcode::MULHU.alu_family(), Some(AluFamily::Mul));
    assert_eq!(Opcode::XOR.alu_family(), Some(AluFamily::Bitwise));
    assert_eq!(Opcode::SRL.alu_family(), Some(AluFamily::ShiftRight));
    assert_eq!(Opcode::DIV.alu_family(), None);
    assert_eq!(Opcode::LW.alu_family(), None);
}

#[test]
fn public_values_are_flattened_byte_by_byte() {
    let mut pv = PublicValues::new();
    pv.committed_value_digest[0] = 0x0403_0201;
    pv.committed_value_digest[7] = 0xff00_0000;
    pv.deferred_proofs_digest[1] = 0x0000_0a0b;
    pv.shard = 3;
    pv.start_pc = 0x1000;
    pv.next_pc = 0x1004;
    pv.exit_code = 1;
    let flat = pv.to_vec();
    assert_eq!(flat.len(), 80);
    assert_eq!(&flat[0..4], &[1, 2, 3, 4]);
    assert_eq!(&flat[28..32], &[0, 0, 0, 0xff]);
    assert_eq!(&flat[36..40], &[0x0b, 0x0a, 0, 0]);
    assert_eq!(&flat[64..68], &[3, 0, 0, 0]);
    assert_eq!(&flat[68..72], &[0, 0x10, 0, 0]);
    assert_eq!(&flat[72..76], &[4, 0x10, 0, 0]);
    assert_eq!(&flat[76..80], &[1, 0, 0, 0]);
    let mut r = record();
    r.public_values = pv;
    assert_eq!(r.public_values(), flat);
}

#[test]
fn a_record_with_one_cpu_event_gives_one_shard() {
    let mut r = record();
    r.cpu_events.push(cpu(5, 0, 0x20, 2));
    let shards = r.shard(&ShardingConfig::with_shard_size(4));
    assert_eq!(shards.len(), 1);
    assert_eq!(shards[0].index, 5);
    assert_eq!(shards[0].cpu_events.len(), 1);
    assert!(shards[0].add_events.is_empty());
    assert_eq!(shards[0].public_values.shard, 5);
    assert_eq!(shards[0].public_values.start_pc, 0x20);
    assert_eq!(shards[0].public_values.next_pc, 0x24);
    assert_eq!(shards[0].public_values.exit_code, 2);
    // The shard has an entry for its own lookups, even where there are none.
    assert_eq!(shards[0].byte_lookups.len(), 1);
    assert!(shards[0].byte_lookups[&5].is_empty());
}

#[test]
fn shards_follow_the_runs_of_cpu_events() {
    let mut r = ExecutionRecord::new(0, Arc::new(Program::new(Vec::new(), 0x100, 0x100)));
    r.public_values.committed_value_digest[2] = 77;
    r.public_values.deferred_proofs_digest[5] = 88;
    let ids = [1u32, 1, 1, 2, 2, 3];
    for (i, id) in ids.iter().enumerate() {
        r.cpu_events.push(cpu(*id, i as u32, 0x100 + 4 * i as u32, if i == 5 { 9 } else { 0 }));
    }
    for i in 0..7 {
        r.add_events.push(alu(Opcode::ADD, i));
    }
    for i in 0..20 {
        r.keccak_permute_events.push(shard_trace::runtime::events::KeccakPermuteEvent {
            shard: 1,
            clk: i,
            state_addr: 0,
            pre_state: Vec::new(),
            post_state: Vec::new(),
            reads: Vec::new(),
            writes: Vec::new(),
        });
    }
    r.sha_extend_events.push(ShaExtendEvent {
        shard: 2,
        clk: 0,
        w_ptr: 0,
        reads: Vec::new(),
        writes: Vec::new(),
    });
    r.ed_add_events.push(ec_add(3));
    r.memory_initialize_events.push(MemoryInitializeFinalizeEvent {
        addr: 4,
        value: 0,
        shard: 0,
        timestamp: 0,
        used: 1,
    });
    r.memory_finalize_events.push(MemoryInitializeFinalizeEvent {
        addr: 4,
        value: 6,
        shard: 3,
        timestamp: 5,
        used: 1,
    });
    r.add_byte_lookup_events(vec![lookup(1, 1), lookup(2, 1), lookup(2, 1), lookup(9, 1)]);

    let mut config = ShardingConfig::with_shard_size(3);
    config.keccak_len = 5;
    let shards = r.shard(&config);

    assert_eq!(shards.len(), 3);
    let lens: Vec<usize> = shards.iter().map(|s| s.cpu_events.len()).collect();
    assert_eq!(lens, vec![3, 2, 1]);
    // The CPU events of the shards are those of the record, in order.
    let clks: Vec<u32> =
        shards.iter().flat_map(|s| s.cpu_events.iter().map(|e| e.clk)).collect();
    assert_eq!(clks, vec![0, 1, 2, 3, 4, 5]);
    for (shard, id) in shards.iter().zip([1u32, 2, 3]) {
        assert_eq!(shard.index, id);
        assert_eq!(shard.public_values.shard, id);
        assert!(shard.cpu_events.iter().all(|e| e.shard == id));
        assert_eq!(shard.public_values.committed_value_digest[2], 77);
        assert_eq!(shard.public_values.deferred_proofs_digest[5], 88);
        assert_eq!(shard.program.pc_start, 0x100);
    }
    // A shard starts where the one before ends.
    assert_eq!(shards[0].public_values.start_pc, 0x100);
    assert_eq!(shards[1].public_values.start_pc, shards[0].public_values.next_pc);
    assert_eq!(shards[2].public_values.start_pc, shards[1].public_values.next_pc);
    assert_eq!(shards[2].public_values.exit_code, 9);
    assert_eq!(shards[0].public_values.exit_code, 0);
    // Seven add events in chunks of three: 3, 3, 1.
    let adds: Vec<Vec<u32>> =
        shards.iter().map(|s| s.add_events.iter().map(|e| e.a).collect()).collect();
    assert_eq!(adds, vec![vec![0, 1, 2], vec![3, 4, 5], vec![6]]);
    // Twenty keccak events in chunks of five: the fourth chunk finds no shard.
    let keccaks: Vec<Vec<u32>> =
        shards.iter().map(|s| s.keccak_permute_events.iter().map(|e| e.clk).collect()).collect();
    assert_eq!(keccaks[0], vec![0, 1, 2, 3, 4]);
    assert_eq!(keccaks[1], vec![5, 6, 7, 8, 9]);
    assert_eq!(keccaks[2], vec![10, 11, 12, 13, 14]);
    // The streams that are not cut go to the first shard.
    assert_eq!(shards[0].sha_extend_events.len(), 1);
    assert_eq!(shards[0].ed_add_events.len(), 1);
    assert!(shards[1].sha_extend_events.is_empty());
    assert!(shards[2].ed_add_events.is_empty());
    // The memory boundary goes to the last shard.
    assert!(shards[0].memory_initialize_events.is_empty());
    assert!(shards[1].memory_finalize_events.is_empty());
    assert_eq!(shards[2].memory_initialize_events.len(), 1);
    assert_eq!(shards[2].memory_finalize_events[0].value, 6);
    // Each shard holds the lookups of its own shard id, and no others.
    assert_eq!(count(&shards[0], lookup(1, 1)), 1);
    assert_eq!(count(&shards[1], lookup(2, 1)), 2);
    assert_eq!(shards[0].byte_lookups.len(), 1);
    assert_eq!(shards[2].byte_lookups.len(), 1);
    assert!(shards[2].byte_lookups[&3].is_empty());
    // No lookup is made or lost: three went to shards, one (of shard 9, which
    // has no CPU event) to none.
    let total: usize =
        shards.iter().flat_map(|s| s.byte_lookups.values()).flat_map(|m| m.values()).sum();
    assert_eq!(total + 1, 4);
}

#[test]
fn the_last_cpu_event_opens_a_shard_of_its_own_where_its_shard_differs() {
    let mut r = record();
    r.cpu_events.push(cpu(1, 0, 0, 0));
    r.cpu_events.push(cpu(1, 1, 4, 0));
    r.cpu_events.push(cpu(2, 2, 8, 0));
    let shards = r.shard(&ShardingConfig::with_shard_size(8));
    assert_eq!(shards.len(), 2);
    assert_eq!(shards[0].cpu_events.len(), 2);
    assert_eq!(shards[1].cpu_events.len(), 1);
    assert_eq!(shards[1].index, 2);
}

#[test]
fn the_configuration_follows_from_the_shard_size() {
    let config = ShardingConfig::with_shard_size(1 << 10);
    assert_eq!(config.shard_size(), 1 << 10);
    assert_eq!(config.add_len, 1 << 10);
    assert_eq!(config.lt_len, 1 << 10);
    assert_eq!(config.keccak_len, 1 << 10);
    assert_eq!(config.bls12381_fp2_mul_len, 1 << 10);
    assert_eq!(config.field_len, 1 << 12);
}
