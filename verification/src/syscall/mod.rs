pub mod precompiles;
