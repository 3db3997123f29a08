pub mod ed_decompress;
