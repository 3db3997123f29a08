pub mod field;
