use std::sync::Arc;

use shard_trace::runtime::events::{AluEvent, CpuEvent};
use shard_trace::runtime::opcode::Opcode;
use shard_trace::runtime::program::{Instruction, Program};
use shard_trace::runtime::record::{ExecutionRecord, ShardingConfig};

fn cpu_event(shard: u32, clk: u32, pc: u32) -> CpuEvent {
    CpuEvent {
        shard,
        clk,
        pc,
        next_pc: pc + 4,
        instruction: Instruction::new(Opcode::ADD, 1, 2, 3, false, false),
        a: 0,
        a_record: None,
        b: 0,
        b_record: None,
        c: 0,
        c_record: None,
        memory: None,
        memory_record: None,
        exit_code: 0,
    }
}

fn empty_record() -> ExecutionRecord {
    ExecutionRecord::new(0, Arc::new(Program::new(Vec::new(), 0, 0)))
}

#[test]
fn two_shards_of_100_with_alu_length_300() {
    let mut record = empty_record();
    for i in 0..200u32 {
        let shard = 1 + i / 100;
        record.cpu_events.push(cpu_event(shard, i, 4 * i));
        record.add_events.push(AluEvent::new(shard, i, Opcode::ADD, i, 1, 2));
    }
    let mut config = ShardingConfig::with_shard_size(100);
    config.add_len = 300;
    let shards = record.shard(&config);
    assert_eq!(shards.len(), 2);
    assert_eq!(shards[0].cpu_events.len(), 100);
    assert_eq!(shards[1].cpu_events.len(), 100);
    assert_eq!(shards[0].add_events.len(), 200);
    assert!(shards[1].add_events.is_empty());
    assert_eq!(shards[0].index, 1);
    assert_eq!(shards[1].index, 2);
}
