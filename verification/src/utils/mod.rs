pub mod bigint;
pub mod ec;
pub mod limbs;
pub mod trace;
