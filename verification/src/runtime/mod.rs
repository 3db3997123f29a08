pub mod bulk;
pub mod chunks;
pub mod events;
pub mod memory;
pub mod opcode;
pub mod program;
pub mod record;
