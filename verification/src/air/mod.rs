pub mod constraints;
pub mod public_values;
