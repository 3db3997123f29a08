pub mod field_op;
pub mod params;
pub mod range;
