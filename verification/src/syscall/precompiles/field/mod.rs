pub mod sub;
