pub mod edwards;
pub mod field;
pub mod slot;
pub mod weierstrass;
